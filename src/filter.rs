//! Log filters: the request object, with its single-or-array fields, and its
//! canonical form with exactly four topic slots.
use vstd::prelude::*;

use crate::block::{
    block_id_of, block_number_of, parse_block_id, parse_block_number, BlockId, BlockIdView,
    BlockNumberView, ParseError, ParseErrorView, Web3BlockNumber,
};
use crate::text::{
    chars_of, fixed_hex, parse_fixed_hex, parse_quantity_hex, quantity_hex, text_is, Json,
};
use crate::types::{H160, H256, U256};
use crate::web3_types::Web3Filter;

verus! {

/// Values written as `0x` hex strings, held as bytes.
pub trait HexValue: Sized {
    /// The bytes that the hex text `s` stands for, if it is one of this kind.
    spec fn hex_spec(s: Seq<char>) -> Option<Seq<u8>>;

    spec fn bytes_of(&self) -> Seq<u8>;

    fn from_hex(s: &Vec<char>) -> (r: Option<Self>)
        ensures
            match (r, Self::hex_spec(s@)) {
                (Some(x), Some(b)) => x.bytes_of() == b,
                (None, None) => true,
                _ => false,
            },
    ;
}

impl HexValue for H160 {
    open spec fn hex_spec(s: Seq<char>) -> Option<Seq<u8>> {
        fixed_hex(s, 20)
    }

    open spec fn bytes_of(&self) -> Seq<u8> {
        self@
    }

    fn from_hex(s: &Vec<char>) -> (r: Option<Self>) {
        match parse_fixed_hex(s, 20) {
            Some(b) => Some(H160 { bytes: b }),
            None => None,
        }
    }
}

impl HexValue for H256 {
    open spec fn hex_spec(s: Seq<char>) -> Option<Seq<u8>> {
        fixed_hex(s, 32)
    }

    open spec fn bytes_of(&self) -> Seq<u8> {
        self@
    }

    fn from_hex(s: &Vec<char>) -> (r: Option<Self>) {
        match parse_fixed_hex(s, 32) {
            Some(b) => Some(H256 { bytes: b }),
            None => None,
        }
    }
}

/// A 256-bit number is written as `0x` and one to 64 hex digits.
impl HexValue for U256 {
    open spec fn hex_spec(s: Seq<char>) -> Option<Seq<u8>> {
        quantity_hex(s)
    }

    open spec fn bytes_of(&self) -> Seq<u8> {
        self@
    }

    fn from_hex(s: &Vec<char>) -> (r: Option<Self>) {
        match parse_quantity_hex(s) {
            Some(b) => Some(U256 { bytes: b }),
            None => None,
        }
    }
}

/// A filter field that may be absent, one value, or a list of values.
#[derive(Clone, Debug, PartialEq, Eq, Hash)]
pub enum VariadicValue<T> {
    Single(T),
    Multiple(Vec<T>),
    Null,
}

pub enum VariadicView {
    Single(Seq<u8>),
    Multiple(Seq<Seq<u8>>),
    Null,
}

pub open spec fn all_bytes<T: HexValue>(v: Seq<T>) -> Seq<Seq<u8>> {
    v.map_values(|x: T| x.bytes_of())
}

pub open spec fn variadic_view<T: HexValue>(v: VariadicValue<T>) -> VariadicView {
    match v {
        VariadicValue::Single(x) => VariadicView::Single(x.bytes_of()),
        VariadicValue::Multiple(xs) => VariadicView::Multiple(all_bytes(xs@)),
        VariadicValue::Null => VariadicView::Null,
    }
}

pub open spec fn hex_item<T: HexValue>(j: Json) -> Option<Seq<u8>> {
    match j {
        Json::Str(s) => T::hex_spec(s@),
        _ => None,
    }
}

pub open spec fn hex_items<T: HexValue>(items: Seq<Json>) -> Option<Seq<Seq<u8>>> {
    if forall|i: int| 0 <= i < items.len() ==> (#[trigger] hex_item::<T>(items[i])) is Some {
        Some(Seq::new(items.len(), |i: int| hex_item::<T>(items[i]).unwrap()))
    } else {
        None
    }
}

/// `null`, else one value, else a list of values: a value is tried before a list.
pub open spec fn variadic_of<T: HexValue>(j: Json) -> Result<VariadicView, ParseErrorView> {
    match j {
        Json::Null => Ok(VariadicView::Null),
        Json::Str(s) => match T::hex_spec(s@) {
            Some(b) => Ok(VariadicView::Single(b)),
            None => Err(ParseErrorView::InvalidVariadic),
        },
        Json::Array(items) => match hex_items::<T>(items@) {
            Some(bs) => Ok(VariadicView::Multiple(bs)),
            None => Err(ParseErrorView::InvalidVariadic),
        },
        _ => Err(ParseErrorView::InvalidVariadic),
    }
}

fn parse_hex_item<T: HexValue>(j: &Json) -> (r: Option<T>)
    ensures
        match (r, hex_item::<T>(*j)) {
            (Some(x), Some(b)) => x.bytes_of() == b,
            (None, None) => true,
            _ => false,
        },
{
    match j {
        Json::Str(s) => {
            let cs = chars_of(s.as_str());
            T::from_hex(&cs)
        },
        _ => None,
    }
}

/// Parses a single-or-array field of hex values.
pub fn parse_variadic<T: HexValue>(j: &Json) -> (r: Result<VariadicValue<T>, ParseError>)
    ensures
        match (r, variadic_of::<T>(*j)) {
            (Ok(v), Ok(w)) => variadic_view(v) == w,
            (Err(e), Err(f)) => e@ == f,
            _ => false,
        },
{
    match j {
        Json::Null => Ok(VariadicValue::Null),
        Json::Str(_) => match parse_hex_item::<T>(j) {
            Some(x) => Ok(VariadicValue::Single(x)),
            None => Err(ParseError::InvalidVariadic),
        },
        Json::Array(items) => {
            let mut out: Vec<T> = Vec::new();
            let mut i: usize = 0;
            while i < items.len()
                invariant
                    *j matches Json::Array(its) && its@ == items@,
                    i <= items@.len(),
                    out@.len() == i,
                    forall|k: int|
                        0 <= k < i ==> #[trigger] hex_item::<T>(items@[k])
                            == Some(out@[k].bytes_of()),
                decreases items@.len() - i,
            {
                match parse_hex_item::<T>(&items[i]) {
                    Some(x) => {
                        out.push(x);
                    },
                    None => {
                        proof {
                            assert(hex_item::<T>(items@[i as int]) is None);
                            assert(hex_items::<T>(items@) is None);
                        }
                        return Err(ParseError::InvalidVariadic);
                    },
                }
                i = i + 1;
            }
            proof {
                assert(all_bytes(out@) =~= hex_items::<T>(items@).unwrap());
            }
            Ok(VariadicValue::Multiple(out))
        },
        _ => Err(ParseError::InvalidVariadic),
    }
}

/// A log filter as a request writes it.
#[derive(Clone, Debug, PartialEq, Eq)]
pub struct ChangeWeb3Filter {
    pub from_block: Option<Web3BlockNumber>,
    pub to_block: Option<Web3BlockNumber>,
    pub block_hash: Option<H256>,
    pub address: Option<VariadicValue<H160>>,
    pub topics: Option<Vec<VariadicValue<H256>>>,
    pub limit: Option<usize>,
}

/// The canonical filter: concrete block bounds and exactly four topic slots,
/// `None` meaning "any".
#[derive(Clone, Debug, PartialEq, Eq)]
pub struct Filter {
    pub from_block: BlockId,
    pub to_block: BlockId,
    pub address: Option<Vec<H160>>,
    pub topics: Vec<Option<Vec<H256>>>,
    pub limit: Option<usize>,
}

pub struct ChangeFilterView {
    pub from_block: Option<BlockNumberView>,
    pub to_block: Option<BlockNumberView>,
    pub block_hash: Option<Seq<u8>>,
    pub address: Option<VariadicView>,
    pub topics: Option<Seq<VariadicView>>,
    pub limit: Option<usize>,
}

pub struct FilterView {
    pub from_block: BlockIdView,
    pub to_block: BlockIdView,
    pub address: Option<Seq<Seq<u8>>>,
    pub topics: Seq<Option<Seq<Seq<u8>>>>,
    pub limit: Option<usize>,
}

pub open spec fn opt_block_view(b: Option<Web3BlockNumber>) -> Option<BlockNumberView> {
    match b {
        Some(x) => Some(x@),
        None => None,
    }
}

pub open spec fn variadic_views<T: HexValue>(v: Seq<VariadicValue<T>>) -> Seq<VariadicView> {
    v.map_values(|x: VariadicValue<T>| variadic_view(x))
}

pub open spec fn opt_list_view<T: HexValue>(o: Option<Vec<T>>) -> Option<Seq<Seq<u8>>> {
    match o {
        Some(v) => Some(all_bytes(v@)),
        None => None,
    }
}

pub open spec fn slot_views(v: Seq<Option<Vec<H256>>>) -> Seq<Option<Seq<Seq<u8>>>> {
    v.map_values(|x: Option<Vec<H256>>| opt_list_view(x))
}

impl View for ChangeWeb3Filter {
    type V = ChangeFilterView;

    open spec fn view(&self) -> ChangeFilterView {
        ChangeFilterView {
            from_block: opt_block_view(self.from_block),
            to_block: opt_block_view(self.to_block),
            block_hash: match self.block_hash {
                Some(h) => Some(h@),
                None => None,
            },
            address: match self.address {
                Some(a) => Some(variadic_view(a)),
                None => None,
            },
            topics: match self.topics {
                Some(t) => Some(variadic_views(t@)),
                None => None,
            },
            limit: self.limit,
        }
    }
}

impl View for Filter {
    type V = FilterView;

    open spec fn view(&self) -> FilterView {
        FilterView {
            from_block: self.from_block@,
            to_block: self.to_block@,
            address: opt_list_view(self.address),
            topics: slot_views(self.topics@),
            limit: self.limit,
        }
    }
}

/// A block number in canonical form: a pending block counts as the latest.
pub open spec fn num_to_id(b: BlockNumberView) -> BlockIdView {
    match b {
        BlockNumberView::Hash(h, _) => BlockIdView::Hash(h),
        BlockNumberView::Num(n) => BlockIdView::Num(n),
        BlockNumberView::Latest => BlockIdView::Latest,
        BlockNumberView::Pending => BlockIdView::Latest,
    }
}

/// A field's value set: `None` matches anything.
pub open spec fn expand(v: VariadicView) -> Option<Seq<Seq<u8>>> {
    match v {
        VariadicView::Null => None,
        VariadicView::Single(a) => Some(seq![a]),
        VariadicView::Multiple(s) => Some(s),
    }
}

/// Topic slot `i`: the `i`-th supplied entry, or "any" where there is none.
pub open spec fn topic_slot(topics: Option<Seq<VariadicView>>, i: int) -> Option<Seq<Seq<u8>>> {
    match topics {
        Some(t) => if i < t.len() {
            expand(t[i])
        } else {
            None
        },
        None => None,
    }
}

pub open spec fn bound_of(block_hash: Option<Seq<u8>>, b: Option<BlockNumberView>) -> BlockIdView {
    match block_hash {
        Some(h) => BlockIdView::Hash(h),
        None => match b {
            Some(x) => num_to_id(x),
            None => BlockIdView::Latest,
        },
    }
}

/// The canonical form of a filter request.
pub open spec fn canonical(f: ChangeFilterView) -> FilterView {
    FilterView {
        from_block: bound_of(f.block_hash, f.from_block),
        to_block: bound_of(f.block_hash, f.to_block),
        address: match f.address {
            Some(a) => expand(a),
            None => None,
        },
        topics: seq![
            topic_slot(f.topics, 0),
            topic_slot(f.topics, 1),
            topic_slot(f.topics, 2),
            topic_slot(f.topics, 3),
        ],
        limit: f.limit,
    }
}

fn copy_h256(h: &H256) -> (r: H256)
    ensures
        r@ == h@,
{
    let b = h.bytes.clone();
    proof {
        assert(b@ =~= h.bytes@);
    }
    H256 { bytes: b }
}

/// The canonical identifier of a block number; a pending block counts as the latest.
pub fn block_number_to_id(b: Web3BlockNumber) -> (r: BlockId)
    ensures
        r@ == num_to_id(b@),
{
    match b {
        Web3BlockNumber::Hash { hash, .. } => BlockId::Hash(hash),
        Web3BlockNumber::Num(n) => BlockId::Num(n),
        Web3BlockNumber::Latest => BlockId::Latest,
        Web3BlockNumber::Pending => BlockId::Latest,
    }
}

fn bound(b: Option<Web3BlockNumber>) -> (r: BlockId)
    ensures
        r@ == bound_of(None, opt_block_view(b)),
{
    match b {
        Some(x) => block_number_to_id(x),
        None => BlockId::Latest,
    }
}

fn expand_values<T: HexValue>(v: VariadicValue<T>) -> (r: Option<Vec<T>>)
    ensures
        opt_list_view(r) == expand(variadic_view(v)),
{
    match v {
        VariadicValue::Null => None,
        VariadicValue::Single(a) => {
            let out = vec![a];
            proof {
                assert(all_bytes(out@) =~= seq![variadic_view(v)->Single_0]);
            }
            Some(out)
        },
        VariadicValue::Multiple(s) => Some(s),
    }
}

impl ChangeWeb3Filter {
    /// The canonical filter: a block hash fixes both bounds; otherwise each
    /// bound is canonicalized, absent ones being the latest block; topics are
    /// cut or padded to four slots.
    pub fn try_into(self) -> (r: Filter)
        ensures
            r@ == canonical(self@),
    {
        let ghost v = self@;
        let (from_block, to_block) = match self.block_hash {
            Some(h) => {
                let h2 = copy_h256(&h);
                (BlockId::Hash(h), BlockId::Hash(h2))
            },
            None => (bound(self.from_block), bound(self.to_block)),
        };
        let address = match self.address {
            Some(a) => expand_values(a),
            None => None,
        };
        let mut ts: Vec<VariadicValue<H256>> = match self.topics {
            Some(t) => t,
            None => Vec::new(),
        };
        let ghost given = ts@;
        ts.truncate(4);
        while ts.len() < 4
            invariant
                ts@.len() <= 4,
                ts@.len() >= given.len() || ts@.len() == 4,
                forall|i: int| 0 <= i < ts@.len() ==> (#[trigger] ts@[i]) == (if i < given.len() {
                    given[i]
                } else {
                    VariadicValue::Null
                }),
            decreases 4 - ts@.len(),
        {
            ts.push(VariadicValue::Null);
        }
        let ghost full = ts@;
        let t3 = ts.pop().unwrap();
        let t2 = ts.pop().unwrap();
        let t1 = ts.pop().unwrap();
        let t0 = ts.pop().unwrap();
        let topics = vec![expand_values(t0), expand_values(t1), expand_values(t2), expand_values(t3)];
        let r = Filter { from_block, to_block, address, topics, limit: self.limit };
        proof {
            assert(t0 == full[0] && t1 == full[1] && t2 == full[2] && t3 == full[3]);
            assert forall|i: int| 0 <= i < 4 implies #[trigger] slot_views(topics@)[i] == topic_slot(
                v.topics,
                i,
            ) by {
                if v.topics is Some {
                    assert(v.topics->Some_0 =~= variadic_views(given));
                }
            }
            assert(r@.topics =~= canonical(v).topics);
        }
        r
    }
}

/// A filter always has four topic slots, and topic entries past the fourth
/// never change it.
pub proof fn lemma_four_topic_slots(f: ChangeFilterView)
    ensures
        canonical(f).topics.len() == 4,
        f.topics is Some && f.topics->Some_0.len() > 4 ==> canonical(f) == canonical(
            (ChangeFilterView { topics: Some(f.topics->Some_0.subrange(0, 4)), ..f }),
        ),
{
    if let Some(t) = f.topics {
        if t.len() > 4 {
            let g = ChangeFilterView { topics: Some(t.subrange(0, 4)), ..f };
            assert(canonical(f).topics =~= canonical(g).topics);
        }
    }
}

/// Index of a filter key: `fromBlock`, `toBlock`, `blockHash`, `address`,
/// `topics`, `limit`.
pub open spec fn filter_key(key: Seq<char>) -> Option<int> {
    if key == seq!['f', 'r', 'o', 'm', 'B', 'l', 'o', 'c', 'k'] {
        Some(0)
    } else if key == seq!['t', 'o', 'B', 'l', 'o', 'c', 'k'] {
        Some(1)
    } else if key == seq!['b', 'l', 'o', 'c', 'k', 'H', 'a', 's', 'h'] {
        Some(2)
    } else if key == seq!['a', 'd', 'd', 'r', 'e', 's', 's'] {
        Some(3)
    } else if key == seq!['t', 'o', 'p', 'i', 'c', 's'] {
        Some(4)
    } else if key == seq!['l', 'i', 'm', 'i', 't'] {
        Some(5)
    } else {
        None
    }
}

/// Topic entries in order; the first failing entry decides the error.
pub open spec fn variadics_of(items: Seq<Json>) -> Result<Seq<VariadicView>, ParseErrorView>
    decreases items.len(),
{
    if items.len() == 0 {
        Ok(Seq::empty())
    } else {
        match variadics_of(items.drop_last()) {
            Ok(vs) => match variadic_of::<H256>(items.last()) {
                Ok(v) => Ok(vs.push(v)),
                Err(e) => Err(e),
            },
            Err(e) => Err(e),
        }
    }
}

pub open spec fn opt_block_of(v: Json) -> Result<Option<BlockNumberView>, ParseErrorView> {
    match v {
        Json::Null => Ok(None),
        _ => match block_number_of(v) {
            Ok(b) => Ok(Some(b)),
            Err(e) => Err(e),
        },
    }
}

/// The filter with field `k` set from the JSON value `v` (`null` clears it).
pub open spec fn filter_value(k: int, v: Json, st: ChangeFilterView) -> Result<
    ChangeFilterView,
    ParseErrorView,
> {
    if k == 0 {
        match opt_block_of(v) {
            Ok(b) => Ok(ChangeFilterView { from_block: b, ..st }),
            Err(e) => Err(e),
        }
    } else if k == 1 {
        match opt_block_of(v) {
            Ok(b) => Ok(ChangeFilterView { to_block: b, ..st }),
            Err(e) => Err(e),
        }
    } else if k == 2 {
        match v {
            Json::Null => Ok(ChangeFilterView { block_hash: None, ..st }),
            Json::Str(s) => match fixed_hex(s@, 32) {
                Some(h) => Ok(ChangeFilterView { block_hash: Some(h), ..st }),
                None => Err(ParseErrorView::InvalidHex),
            },
            _ => Err(ParseErrorView::InvalidType),
        }
    } else if k == 3 {
        match v {
            Json::Null => Ok(ChangeFilterView { address: None, ..st }),
            _ => match variadic_of::<H160>(v) {
                Ok(a) => Ok(ChangeFilterView { address: Some(a), ..st }),
                Err(e) => Err(e),
            },
        }
    } else if k == 4 {
        match v {
            Json::Null => Ok(ChangeFilterView { topics: None, ..st }),
            Json::Array(items) => match variadics_of(items@) {
                Ok(ts) => Ok(ChangeFilterView { topics: Some(ts), ..st }),
                Err(e) => Err(e),
            },
            _ => Err(ParseErrorView::InvalidType),
        }
    } else {
        match v {
            Json::Null => Ok(ChangeFilterView { limit: None, ..st }),
            Json::Number(n) => if n <= usize::MAX {
                Ok(ChangeFilterView { limit: Some(n as usize), ..st })
            } else {
                Err(ParseErrorView::InvalidType)
            },
            _ => Err(ParseErrorView::InvalidType),
        }
    }
}

pub open spec fn empty_filter() -> ChangeFilterView {
    ChangeFilterView {
        from_block: None,
        to_block: None,
        block_hash: None,
        address: None,
        topics: None,
        limit: None,
    }
}

/// Reads the entries of a filter object in order, with the keys seen so far;
/// an unknown or repeated key is refused.
pub open spec fn filter_fields(entries: Seq<(String, Json)>) -> Result<
    (ChangeFilterView, Seq<bool>),
    ParseErrorView,
>
    decreases entries.len(),
{
    if entries.len() == 0 {
        Ok((empty_filter(), seq![false, false, false, false, false, false]))
    } else {
        match filter_fields(entries.drop_last()) {
            Ok((st, seen)) => {
                let key = entries.last().0@;
                match filter_key(key) {
                    None => Err(ParseErrorView::UnknownField(key)),
                    Some(k) => if seen[k] {
                        Err(ParseErrorView::DuplicateField(key))
                    } else {
                        match filter_value(k, entries.last().1, st) {
                            Ok(st2) => Ok((st2, seen.update(k, true))),
                            Err(e) => Err(e),
                        }
                    },
                }
            },
            Err(e) => Err(e),
        }
    }
}

/// A filter request: an object with only the filter keys, each at most once.
pub open spec fn change_filter_of(j: Json) -> Result<ChangeFilterView, ParseErrorView> {
    match j {
        Json::Object(entries) => match filter_fields(entries@) {
            Ok((st, _)) => Ok(st),
            Err(e) => Err(e),
        },
        _ => Err(ParseErrorView::InvalidType),
    }
}

fn parse_topics(items: &Vec<Json>) -> (r: Result<Vec<VariadicValue<H256>>, ParseError>)
    ensures
        match (r, variadics_of(items@)) {
            (Ok(v), Ok(w)) => variadic_views(v@) == w,
            (Err(e), Err(f)) => e@ == f,
            _ => false,
        },
{
    let mut out: Vec<VariadicValue<H256>> = Vec::new();
    let mut i: usize = 0;
    proof {
        assert(variadic_views(out@) =~= Seq::<VariadicView>::empty());
        assert(items@.subrange(0, 0) =~= Seq::<Json>::empty());
    }
    while i < items.len()
        invariant
            i <= items@.len(),
            variadics_of(items@.subrange(0, i as int)) == Ok::<Seq<VariadicView>, ParseErrorView>(
                variadic_views(out@),
            ),
        decreases items@.len() - i,
    {
        let ghost next = items@.subrange(0, i + 1);
        proof {
            assert(next.drop_last() =~= items@.subrange(0, i as int));
        }
        match parse_variadic::<H256>(&items[i]) {
            Ok(v) => {
                let ghost before = out@;
                out.push(v);
                proof {
                    assert(variadic_views(out@) =~= variadic_views(before).push(variadic_view(v)));
                }
            },
            Err(e) => {
                proof {
                    lemma_variadics_stuck(items@, i as int + 1);
                }
                return Err(e);
            },
        }
        i = i + 1;
    }
    proof {
        assert(items@.subrange(0, i as int) =~= items@);
    }
    Ok(out)
}

pub proof fn lemma_variadics_stuck(items: Seq<Json>, j: int)
    requires
        0 <= j <= items.len(),
        variadics_of(items.subrange(0, j)) is Err,
    ensures
        variadics_of(items) == variadics_of(items.subrange(0, j)),
    decreases items.len() - j,
{
    if j < items.len() {
        assert(items.subrange(0, j + 1).drop_last() =~= items.subrange(0, j));
        lemma_variadics_stuck(items, j + 1);
    } else {
        assert(items.subrange(0, j) =~= items);
    }
}

pub proof fn lemma_filter_fields_stuck(entries: Seq<(String, Json)>, j: int)
    requires
        0 <= j <= entries.len(),
        filter_fields(entries.subrange(0, j)) is Err,
    ensures
        filter_fields(entries) == filter_fields(entries.subrange(0, j)),
    decreases entries.len() - j,
{
    if j < entries.len() {
        assert(entries.subrange(0, j + 1).drop_last() =~= entries.subrange(0, j));
        lemma_filter_fields_stuck(entries, j + 1);
    } else {
        assert(entries.subrange(0, j) =~= entries);
    }
}

fn parse_opt_block(v: &Json) -> (r: Result<Option<Web3BlockNumber>, ParseError>)
    ensures
        match (r, opt_block_of(*v)) {
            (Ok(b), Ok(w)) => opt_block_view(b) == w,
            (Err(e), Err(f)) => e@ == f,
            _ => false,
        },
{
    match v {
        Json::Null => Ok(None),
        _ => match parse_block_number(v) {
            Ok(b) => Ok(Some(b)),
            Err(e) => Err(e),
        },
    }
}

fn filter_key_exec(key: &Vec<char>) -> (r: Option<usize>)
    ensures
        match filter_key(key@) {
            Some(k) => r == Some(k as usize),
            None => r is None,
        },
{
    if text_is(key, vec!['f', 'r', 'o', 'm', 'B', 'l', 'o', 'c', 'k']) {
        Some(0)
    } else if text_is(key, vec!['t', 'o', 'B', 'l', 'o', 'c', 'k']) {
        Some(1)
    } else if text_is(key, vec!['b', 'l', 'o', 'c', 'k', 'H', 'a', 's', 'h']) {
        Some(2)
    } else if text_is(key, vec!['a', 'd', 'd', 'r', 'e', 's', 's']) {
        Some(3)
    } else if text_is(key, vec!['t', 'o', 'p', 'i', 'c', 's']) {
        Some(4)
    } else if text_is(key, vec!['l', 'i', 'm', 'i', 't']) {
        Some(5)
    } else {
        None
    }
}

fn apply_filter_value(k: usize, v: &Json, f: ChangeWeb3Filter) -> (r: Result<
    ChangeWeb3Filter,
    ParseError,
>)
    requires
        k < 6,
    ensures
        match (r, filter_value(k as int, *v, f@)) {
            (Ok(g), Ok(w)) => g@ == w,
            (Err(e), Err(x)) => e@ == x,
            _ => false,
        },
{
    if k == 0 {
        let b = parse_opt_block(v)?;
        Ok(ChangeWeb3Filter { from_block: b, ..f })
    } else if k == 1 {
        let b = parse_opt_block(v)?;
        Ok(ChangeWeb3Filter { to_block: b, ..f })
    } else if k == 2 {
        match v {
            Json::Null => Ok(ChangeWeb3Filter { block_hash: None, ..f }),
            Json::Str(s) => {
                let cs = chars_of(s.as_str());
                match parse_fixed_hex(&cs, 32) {
                    Some(h) => Ok(ChangeWeb3Filter { block_hash: Some(H256 { bytes: h }), ..f }),
                    None => Err(ParseError::InvalidHex),
                }
            },
            _ => Err(ParseError::InvalidType),
        }
    } else if k == 3 {
        match v {
            Json::Null => Ok(ChangeWeb3Filter { address: None, ..f }),
            _ => {
                let a = parse_variadic::<H160>(v)?;
                Ok(ChangeWeb3Filter { address: Some(a), ..f })
            },
        }
    } else if k == 4 {
        match v {
            Json::Null => Ok(ChangeWeb3Filter { topics: None, ..f }),
            Json::Array(items) => {
                let ts = parse_topics(items)?;
                Ok(ChangeWeb3Filter { topics: Some(ts), ..f })
            },
            _ => Err(ParseError::InvalidType),
        }
    } else {
        match v {
            Json::Null => Ok(ChangeWeb3Filter { limit: None, ..f }),
            Json::Number(n) => if *n <= usize::MAX as u64 {
                Ok(ChangeWeb3Filter { limit: Some(*n as usize), ..f })
            } else {
                Err(ParseError::InvalidType)
            },
            _ => Err(ParseError::InvalidType),
        }
    }
}

/// Parses a filter request object in strict mode: unknown and repeated keys
/// are refused.
pub fn parse_change_filter(j: &Json) -> (r: Result<ChangeWeb3Filter, ParseError>)
    ensures
        match (r, change_filter_of(*j)) {
            (Ok(f), Ok(w)) => f@ == w,
            (Err(e), Err(x)) => e@ == x,
            _ => false,
        },
{
    let entries = match j {
        Json::Object(entries) => entries,
        _ => {
            return Err(ParseError::InvalidType);
        },
    };
    let mut f = ChangeWeb3Filter {
        from_block: None,
        to_block: None,
        block_hash: None,
        address: None,
        topics: None,
        limit: None,
    };
    let mut seen: Vec<bool> = vec![false, false, false, false, false, false];
    let mut i: usize = 0;
    while i < entries.len()
        invariant
            *j matches Json::Object(es) && es@ == entries@,
            i <= entries@.len(),
            filter_fields(entries@.subrange(0, i as int)) == Ok::<
                (ChangeFilterView, Seq<bool>),
                ParseErrorView,
            >((f@, seen@)),
            seen@.len() == 6,
        decreases entries@.len() - i,
    {
        let ghost next = entries@.subrange(0, i + 1);
        proof {
            assert(next.drop_last() =~= entries@.subrange(0, i as int));
        }
        let key = chars_of(entries[i].0.as_str());
        let k = match filter_key_exec(&key) {
            Some(k) => k,
            None => {
                let name = entries[i].0.clone();
                proof {
                    assert(name@ == entries@[i as int].0@);
                    lemma_filter_fields_stuck(entries@, i as int + 1);
                }
                return Err(ParseError::UnknownField(name));
            },
        };
        if seen[k] {
            let name = entries[i].0.clone();
            proof {
                assert(name@ == entries@[i as int].0@);
                lemma_filter_fields_stuck(entries@, i as int + 1);
            }
            return Err(ParseError::DuplicateField(name));
        }
        match apply_filter_value(k, &entries[i].1, f) {
            Ok(g) => {
                f = g;
            },
            Err(e) => {
                proof {
                    lemma_filter_fields_stuck(entries@, i as int + 1);
                }
                return Err(e);
            },
        }
        seen.set(k, true);
        i = i + 1;
    }
    proof {
        assert(entries@.subrange(0, i as int) =~= entries@);
    }
    Ok(f)
}

pub struct Web3FilterView {
    pub from_block: Option<BlockIdView>,
    pub to_block: Option<BlockIdView>,
    pub block_hash: Option<Seq<u8>>,
    pub address: Option<Seq<u8>>,
    pub topics: Option<Seq<Seq<u8>>>,
    pub limit: Option<usize>,
}

pub open spec fn opt_id_view(b: Option<BlockId>) -> Option<BlockIdView> {
    match b {
        Some(x) => Some(x@),
        None => None,
    }
}

impl View for Web3Filter {
    type V = Web3FilterView;

    open spec fn view(&self) -> Web3FilterView {
        Web3FilterView {
            from_block: opt_id_view(self.from_block),
            to_block: opt_id_view(self.to_block),
            block_hash: match self.block_hash {
                Some(h) => Some(h@),
                None => None,
            },
            address: match self.address {
                Some(a) => Some(a@),
                None => None,
            },
            topics: opt_list_view(self.topics),
            limit: self.limit,
        }
    }
}

pub open spec fn opt_id_of(v: Json) -> Result<Option<BlockIdView>, ParseErrorView> {
    match v {
        Json::Null => Ok(None),
        _ => match block_id_of(v) {
            Ok(b) => Ok(Some(b)),
            Err(e) => Err(e),
        },
    }
}

/// A single hex value of `n` bytes, or `null`.
pub open spec fn opt_hex_of(v: Json, n: nat) -> Result<Option<Seq<u8>>, ParseErrorView> {
    match v {
        Json::Null => Ok(None),
        Json::Str(s) => match fixed_hex(s@, n) {
            Some(h) => Ok(Some(h)),
            None => Err(ParseErrorView::InvalidHex),
        },
        _ => Err(ParseErrorView::InvalidType),
    }
}

/// The log filter with field `k` set from the JSON value `v`.
pub open spec fn log_filter_value(k: int, v: Json, st: Web3FilterView) -> Result<
    Web3FilterView,
    ParseErrorView,
> {
    if k == 0 {
        match opt_id_of(v) {
            Ok(b) => Ok(Web3FilterView { from_block: b, ..st }),
            Err(e) => Err(e),
        }
    } else if k == 1 {
        match opt_id_of(v) {
            Ok(b) => Ok(Web3FilterView { to_block: b, ..st }),
            Err(e) => Err(e),
        }
    } else if k == 2 {
        match opt_hex_of(v, 32) {
            Ok(h) => Ok(Web3FilterView { block_hash: h, ..st }),
            Err(e) => Err(e),
        }
    } else if k == 3 {
        match opt_hex_of(v, 20) {
            Ok(a) => Ok(Web3FilterView { address: a, ..st }),
            Err(e) => Err(e),
        }
    } else if k == 4 {
        match v {
            Json::Null => Ok(Web3FilterView { topics: None, ..st }),
            Json::Array(items) => match hex_items::<H256>(items@) {
                Some(ts) => Ok(Web3FilterView { topics: Some(ts), ..st }),
                None => Err(ParseErrorView::InvalidHex),
            },
            _ => Err(ParseErrorView::InvalidType),
        }
    } else {
        match v {
            Json::Null => Ok(Web3FilterView { limit: None, ..st }),
            Json::Number(n) => if n <= usize::MAX {
                Ok(Web3FilterView { limit: Some(n as usize), ..st })
            } else {
                Err(ParseErrorView::InvalidType)
            },
            _ => Err(ParseErrorView::InvalidType),
        }
    }
}

pub open spec fn empty_log_filter() -> Web3FilterView {
    Web3FilterView {
        from_block: None,
        to_block: None,
        block_hash: None,
        address: None,
        topics: None,
        limit: None,
    }
}

/// Reads the entries of a log filter object in order; an unknown or
/// repeated key is refused.
pub open spec fn log_filter_fields(entries: Seq<(String, Json)>) -> Result<
    (Web3FilterView, Seq<bool>),
    ParseErrorView,
>
    decreases entries.len(),
{
    if entries.len() == 0 {
        Ok((empty_log_filter(), seq![false, false, false, false, false, false]))
    } else {
        match log_filter_fields(entries.drop_last()) {
            Ok((st, seen)) => {
                let key = entries.last().0@;
                match filter_key(key) {
                    None => Err(ParseErrorView::UnknownField(key)),
                    Some(k) => if seen[k] {
                        Err(ParseErrorView::DuplicateField(key))
                    } else {
                        match log_filter_value(k, entries.last().1, st) {
                            Ok(st2) => Ok((st2, seen.update(k, true))),
                            Err(e) => Err(e),
                        }
                    },
                }
            },
            Err(e) => Err(e),
        }
    }
}

/// A log filter of `eth_getLogs`: an object with only the filter keys, each
/// at most once.
pub open spec fn log_filter_of(j: Json) -> Result<Web3FilterView, ParseErrorView> {
    match j {
        Json::Object(entries) => match log_filter_fields(entries@) {
            Ok((st, _)) => Ok(st),
            Err(e) => Err(e),
        },
        _ => Err(ParseErrorView::InvalidType),
    }
}

pub proof fn lemma_log_filter_fields_stuck(entries: Seq<(String, Json)>, j: int)
    requires
        0 <= j <= entries.len(),
        log_filter_fields(entries.subrange(0, j)) is Err,
    ensures
        log_filter_fields(entries) == log_filter_fields(entries.subrange(0, j)),
    decreases entries.len() - j,
{
    if j < entries.len() {
        assert(entries.subrange(0, j + 1).drop_last() =~= entries.subrange(0, j));
        lemma_log_filter_fields_stuck(entries, j + 1);
    } else {
        assert(entries.subrange(0, j) =~= entries);
    }
}

fn parse_opt_id(v: &Json) -> (r: Result<Option<BlockId>, ParseError>)
    ensures
        match (r, opt_id_of(*v)) {
            (Ok(b), Ok(w)) => opt_id_view(b) == w,
            (Err(e), Err(f)) => e@ == f,
            _ => false,
        },
{
    match v {
        Json::Null => Ok(None),
        _ => match parse_block_id(v) {
            Ok(b) => Ok(Some(b)),
            Err(e) => Err(e),
        },
    }
}

fn parse_opt_hex(v: &Json, n: usize) -> (r: Result<Option<Vec<u8>>, ParseError>)
    ensures
        match (r, opt_hex_of(*v, n as nat)) {
            (Ok(Some(b)), Ok(Some(w))) => b@ == w,
            (Ok(None), Ok(None)) => true,
            (Err(e), Err(f)) => e@ == f,
            _ => false,
        },
{
    match v {
        Json::Null => Ok(None),
        Json::Str(s) => {
            let cs = chars_of(s.as_str());
            match parse_fixed_hex(&cs, n) {
                Some(b) => Ok(Some(b)),
                None => Err(ParseError::InvalidHex),
            }
        },
        _ => Err(ParseError::InvalidType),
    }
}

fn parse_hashes(items: &Vec<Json>) -> (r: Option<Vec<H256>>)
    ensures
        match (r, hex_items::<H256>(items@)) {
            (Some(v), Some(w)) => all_bytes(v@) == w,
            (None, None) => true,
            _ => false,
        },
{
    let mut out: Vec<H256> = Vec::new();
    let mut i: usize = 0;
    while i < items.len()
        invariant
            i <= items@.len(),
            out@.len() == i,
            forall|k: int| 0 <= k < i ==> #[trigger] hex_item::<H256>(items@[k]) == Some(out@[k]@),
        decreases items@.len() - i,
    {
        match parse_hex_item::<H256>(&items[i]) {
            Some(x) => {
                out.push(x);
            },
            None => {
                proof {
                    assert(hex_item::<H256>(items@[i as int]) is None);
                    assert(hex_items::<H256>(items@) is None);
                }
                return None;
            },
        }
        i = i + 1;
    }
    proof {
        assert(all_bytes(out@) =~= hex_items::<H256>(items@).unwrap());
    }
    Some(out)
}

fn apply_log_filter_value(k: usize, v: &Json, f: Web3Filter) -> (r: Result<Web3Filter, ParseError>)
    requires
        k < 6,
    ensures
        match (r, log_filter_value(k as int, *v, f@)) {
            (Ok(g), Ok(w)) => g@ == w,
            (Err(e), Err(x)) => e@ == x,
            _ => false,
        },
{
    if k == 0 {
        let b = parse_opt_id(v)?;
        Ok(Web3Filter { from_block: b, ..f })
    } else if k == 1 {
        let b = parse_opt_id(v)?;
        Ok(Web3Filter { to_block: b, ..f })
    } else if k == 2 {
        let h = parse_opt_hex(v, 32)?;
        Ok(
            Web3Filter {
                block_hash: match h {
                    Some(b) => Some(H256 { bytes: b }),
                    None => None,
                },
                ..f
            },
        )
    } else if k == 3 {
        let a = parse_opt_hex(v, 20)?;
        Ok(
            Web3Filter {
                address: match a {
                    Some(b) => Some(H160 { bytes: b }),
                    None => None,
                },
                ..f
            },
        )
    } else if k == 4 {
        match v {
            Json::Null => Ok(Web3Filter { topics: None, ..f }),
            Json::Array(items) => match parse_hashes(items) {
                Some(ts) => Ok(Web3Filter { topics: Some(ts), ..f }),
                None => Err(ParseError::InvalidHex),
            },
            _ => Err(ParseError::InvalidType),
        }
    } else {
        match v {
            Json::Null => Ok(Web3Filter { limit: None, ..f }),
            Json::Number(n) => if *n <= usize::MAX as u64 {
                Ok(Web3Filter { limit: Some(*n as usize), ..f })
            } else {
                Err(ParseError::InvalidType)
            },
            _ => Err(ParseError::InvalidType),
        }
    }
}

/// Parses the filter object of `eth_getLogs` in strict mode: unknown and
/// repeated keys are refused.
pub fn parse_web3_filter(j: &Json) -> (r: Result<Web3Filter, ParseError>)
    ensures
        match (r, log_filter_of(*j)) {
            (Ok(f), Ok(w)) => f@ == w,
            (Err(e), Err(x)) => e@ == x,
            _ => false,
        },
{
    let entries = match j {
        Json::Object(entries) => entries,
        _ => {
            return Err(ParseError::InvalidType);
        },
    };
    let mut f = Web3Filter {
        from_block: None,
        to_block: None,
        block_hash: None,
        address: None,
        topics: None,
        limit: None,
    };
    let mut seen: Vec<bool> = vec![false, false, false, false, false, false];
    let mut i: usize = 0;
    while i < entries.len()
        invariant
            *j matches Json::Object(es) && es@ == entries@,
            i <= entries@.len(),
            log_filter_fields(entries@.subrange(0, i as int)) == Ok::<
                (Web3FilterView, Seq<bool>),
                ParseErrorView,
            >((f@, seen@)),
            seen@.len() == 6,
        decreases entries@.len() - i,
    {
        let ghost next = entries@.subrange(0, i + 1);
        proof {
            assert(next.drop_last() =~= entries@.subrange(0, i as int));
        }
        let key = chars_of(entries[i].0.as_str());
        let k = match filter_key_exec(&key) {
            Some(k) => k,
            None => {
                let name = entries[i].0.clone();
                proof {
                    assert(name@ == entries@[i as int].0@);
                    lemma_log_filter_fields_stuck(entries@, i as int + 1);
                }
                return Err(ParseError::UnknownField(name));
            },
        };
        if seen[k] {
            let name = entries[i].0.clone();
            proof {
                assert(name@ == entries@[i as int].0@);
                lemma_log_filter_fields_stuck(entries@, i as int + 1);
            }
            return Err(ParseError::DuplicateField(name));
        }
        match apply_log_filter_value(k, &entries[i].1, f) {
            Ok(g) => {
                f = g;
            },
            Err(e) => {
                proof {
                    lemma_log_filter_fields_stuck(entries@, i as int + 1);
                }
                return Err(e);
            },
        }
        seen.set(k, true);
        i = i + 1;
    }
    proof {
        assert(entries@.subrange(0, i as int) =~= entries@);
    }
    Ok(f)
}

} // verus!
