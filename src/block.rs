//! Block identifiers and array indices as JSON-RPC requests write them.
use vstd::prelude::*;

use crate::text::{
    chars_of, text_is, fixed_hex, has_hex_prefix, hex_number, parse_digits, parse_digits_exec,
    parse_fixed_hex, Json,
};
use crate::scalar::strip_zeros;
use crate::types::H256;

verus! {

/// Errors of the request-value decoder.
#[derive(Clone, Debug, PartialEq, Eq)]
pub enum ParseError {
    /// A block number written without its `0x` prefix.
    MissingHexPrefix,
    /// Hex digits that are not a number, or one too large.
    InvalidNumber,
    /// A hash or address that is not `0x` and the right number of hex digits.
    InvalidHex,
    /// A value of the wrong JSON shape.
    InvalidType,
    /// An object key outside the expected set.
    UnknownField(String),
    /// An object key given twice.
    DuplicateField(String),
    /// An object that names no block.
    MissingField,
    /// An index that is neither hex nor decimal.
    InvalidIndex,
    /// Neither a value nor an array of values.
    InvalidVariadic,
}

pub enum ParseErrorView {
    MissingHexPrefix,
    InvalidNumber,
    InvalidHex,
    InvalidType,
    UnknownField(Seq<char>),
    DuplicateField(Seq<char>),
    MissingField,
    InvalidIndex,
    InvalidVariadic,
}

impl View for ParseError {
    type V = ParseErrorView;

    open spec fn view(&self) -> ParseErrorView {
        match self {
            ParseError::MissingHexPrefix => ParseErrorView::MissingHexPrefix,
            ParseError::InvalidNumber => ParseErrorView::InvalidNumber,
            ParseError::InvalidHex => ParseErrorView::InvalidHex,
            ParseError::InvalidType => ParseErrorView::InvalidType,
            ParseError::UnknownField(k) => ParseErrorView::UnknownField(k@),
            ParseError::DuplicateField(k) => ParseErrorView::DuplicateField(k@),
            ParseError::MissingField => ParseErrorView::MissingField,
            ParseError::InvalidIndex => ParseErrorView::InvalidIndex,
            ParseError::InvalidVariadic => ParseErrorView::InvalidVariadic,
        }
    }
}

/// View of a result, through the views of both sides.
pub open spec fn rview<T: View, E: View>(r: Result<T, E>) -> Result<T::V, E::V> {
    match r {
        Ok(x) => Ok(x@),
        Err(e) => Err(e@),
    }
}

/// The canonical block identifier.
#[derive(Clone, Debug, PartialEq, Eq, Hash)]
pub enum BlockId {
    Num(u64),
    Hash(H256),
    Latest,
}

pub enum BlockIdView {
    Num(u64),
    Hash(Seq<u8>),
    Latest,
}

impl View for BlockId {
    type V = BlockIdView;

    open spec fn view(&self) -> BlockIdView {
        match self {
            BlockId::Num(n) => BlockIdView::Num(*n),
            BlockId::Hash(h) => BlockIdView::Hash(h@),
            BlockId::Latest => BlockIdView::Latest,
        }
    }
}

/// A block as a request may name it, before canonicalization.
#[derive(Clone, Debug, PartialEq, Eq, Hash)]
pub enum Web3BlockNumber {
    Hash { hash: H256, require_canonical: bool },
    Num(u64),
    Latest,
    Pending,
}

pub enum BlockNumberView {
    Hash(Seq<u8>, bool),
    Num(u64),
    Latest,
    Pending,
}

impl View for Web3BlockNumber {
    type V = BlockNumberView;

    open spec fn view(&self) -> BlockNumberView {
        match self {
            Web3BlockNumber::Hash { hash, require_canonical } => BlockNumberView::Hash(
                hash@,
                *require_canonical,
            ),
            Web3BlockNumber::Num(n) => BlockNumberView::Num(*n),
            Web3BlockNumber::Latest => BlockNumberView::Latest,
            Web3BlockNumber::Pending => BlockNumberView::Pending,
        }
    }
}

impl Default for BlockId {
    fn default() -> (r: BlockId)
        ensures
            r@ == BlockIdView::Latest,
    {
        BlockId::Latest
    }
}

/// The block number, if the identifier is one.
pub open spec fn block_id_number(id: BlockId) -> Option<u64> {
    match id {
        BlockId::Num(n) => Some(n),
        _ => None,
    }
}

impl From<BlockId> for Option<u64> {
    fn from(id: BlockId) -> (r: Option<u64>) {
        match id {
            BlockId::Num(n) => Some(n),
            BlockId::Latest => None,
            BlockId::Hash(_h) => None,
        }
    }
}

impl vstd::std_specs::convert::FromSpecImpl<BlockId> for Option<u64> {
    open spec fn obeys_from_spec() -> bool {
        true
    }

    open spec fn from_spec(id: BlockId) -> Option<u64> {
        block_id_number(id)
    }
}

impl Default for Web3BlockNumber {
    fn default() -> (r: Web3BlockNumber)
        ensures
            r@ == BlockNumberView::Latest,
    {
        Web3BlockNumber::Latest
    }
}

impl Web3BlockNumber {
    /// The block number, if this identifier is one.
    pub fn to_min_block_num(&self) -> (r: Option<u64>)
        ensures
            r == (match self@ {
                BlockNumberView::Num(n) => Some(n),
                _ => None,
            }),
    {
        match self {
            Web3BlockNumber::Num(n) => Some(*n),
            _ => None,
        }
    }
}

pub open spec fn lit_latest() -> Seq<char> {
    seq!['l', 'a', 't', 'e', 's', 't']
}

pub open spec fn lit_pending() -> Seq<char> {
    seq!['p', 'e', 'n', 'd', 'i', 'n', 'g']
}

pub open spec fn key_block_hash() -> Seq<char> {
    seq!['b', 'l', 'o', 'c', 'k', 'H', 'a', 's', 'h']
}

pub open spec fn key_require_canonical() -> Seq<char> {
    seq![
        'r', 'e', 'q', 'u', 'i', 'r', 'e', 'C', 'a', 'n', 'o', 'n', 'i', 'c', 'a', 'l',
    ]
}

/// A block number written as `0x` and hex digits.
pub open spec fn hex_u64(s: Seq<char>) -> Result<u64, ParseErrorView> {
    if has_hex_prefix(s) {
        match hex_number(s, u64::MAX as nat) {
            Some(n) => Ok(n as u64),
            None => Err(ParseErrorView::InvalidNumber),
        }
    } else {
        Err(ParseErrorView::MissingHexPrefix)
    }
}

/// What the object form of a block identifier has said so far.
pub struct BlockFields {
    pub hash: Option<Seq<u8>>,
    pub require_canonical: bool,
}

pub open spec fn block_field_step(st: BlockFields, key: Seq<char>, v: Json) -> Result<
    BlockFields,
    ParseErrorView,
> {
    if key == key_block_hash() {
        match v {
            Json::Str(s) => match fixed_hex(s@, 32) {
                Some(h) => Ok(BlockFields { hash: Some(h), ..st }),
                None => Err(ParseErrorView::InvalidHex),
            },
            _ => Err(ParseErrorView::InvalidType),
        }
    } else if key == key_require_canonical() {
        match v {
            Json::Bool(b) => Ok(BlockFields { require_canonical: b, ..st }),
            _ => Err(ParseErrorView::InvalidType),
        }
    } else {
        Err(ParseErrorView::UnknownField(key))
    }
}

/// Reads the entries of a block-identifier object in order: only `blockHash`
/// and `requireCanonical` are known keys; the first error stops it.
pub open spec fn block_fields(entries: Seq<(String, Json)>) -> Result<BlockFields, ParseErrorView>
    decreases entries.len(),
{
    if entries.len() == 0 {
        Ok(BlockFields { hash: None, require_canonical: false })
    } else {
        match block_fields(entries.drop_last()) {
            Ok(st) => block_field_step(st, entries.last().0@, entries.last().1),
            Err(e) => Err(e),
        }
    }
}

/// A block number as a request writes it: a tag, a hex number, or an object.
pub open spec fn block_number_of(j: Json) -> Result<BlockNumberView, ParseErrorView> {
    match j {
        Json::Str(s) => if s@ == lit_latest() {
            Ok(BlockNumberView::Latest)
        } else if s@ == lit_pending() {
            Ok(BlockNumberView::Pending)
        } else {
            match hex_u64(s@) {
                Ok(n) => Ok(BlockNumberView::Num(n)),
                Err(e) => Err(e),
            }
        },
        Json::Object(entries) => match block_fields(entries@) {
            Ok(st) => match st.hash {
                Some(h) => Ok(BlockNumberView::Hash(h, st.require_canonical)),
                None => Err(ParseErrorView::MissingField),
            },
            Err(e) => Err(e),
        },
        _ => Err(ParseErrorView::InvalidType),
    }
}

/// The canonical identifier as a request writes it: `latest`, a hex number,
/// or an object with a block hash.
pub open spec fn block_id_of(j: Json) -> Result<BlockIdView, ParseErrorView> {
    match j {
        Json::Str(s) => if s@ == lit_latest() {
            Ok(BlockIdView::Latest)
        } else {
            match hex_u64(s@) {
                Ok(n) => Ok(BlockIdView::Num(n)),
                Err(e) => Err(e),
            }
        },
        Json::Object(entries) => match block_fields(entries@) {
            Ok(st) => match st.hash {
                Some(h) => Ok(BlockIdView::Hash(h)),
                None => Err(ParseErrorView::MissingField),
            },
            Err(e) => Err(e),
        },
        _ => Err(ParseErrorView::InvalidType),
    }
}

/// An index: `0x` and hex digits, or decimal digits.
pub open spec fn index_of(j: Json) -> Result<usize, ParseErrorView> {
    match j {
        Json::Str(s) => {
            let v = if has_hex_prefix(s@) {
                hex_number(s@, usize::MAX as nat)
            } else {
                parse_digits(s@, 10, usize::MAX as nat)
            };
            match v {
                Some(n) => Ok(n as usize),
                None => Err(ParseErrorView::InvalidIndex),
            }
        },
        _ => Err(ParseErrorView::InvalidIndex),
    }
}

pub fn parse_hex_u64(s: &Vec<char>) -> (r: Result<u64, ParseError>)
    ensures
        rview(r) == hex_u64(s@),
{
    if s.len() >= 2 && s[0] == '0' && s[1] == 'x' {
        match parse_digits_exec(s, 2, 16, u64::MAX) {
            Some(n) => Ok(n),
            None => Err(ParseError::InvalidNumber),
        }
    } else {
        Err(ParseError::MissingHexPrefix)
    }
}

fn read_block_fields(entries: &Vec<(String, Json)>) -> (r: Result<(Option<H256>, bool), ParseError>)
    ensures
        match (r, block_fields(entries@)) {
            (Ok((h, c)), Ok(st)) => c == st.require_canonical && match h {
                Some(x) => st.hash == Some(x@),
                None => st.hash is None,
            },
            (Err(e), Err(f)) => e@ == f,
            _ => false,
        },
{
    let mut hash: Option<H256> = None;
    let mut canonical = false;
    let mut i: usize = 0;
    while i < entries.len()
        invariant
            i <= entries@.len(),
            block_fields(entries@.subrange(0, i as int)) matches Ok(st) && canonical
                == st.require_canonical && match hash {
                Some(x) => st.hash == Some(x@),
                None => st.hash is None,
            },
        decreases entries@.len() - i,
    {
        let ghost pre = entries@.subrange(0, i as int);
        let ghost next = entries@.subrange(0, i + 1);
        proof {
            assert(next.drop_last() =~= pre);
        }
        let key = chars_of(entries[i].0.as_str());
        let value = &entries[i].1;
        if text_is(&key, vec!['b', 'l', 'o', 'c', 'k', 'H', 'a', 's', 'h']) {
            match value {
                Json::Str(s) => {
                    let cs = chars_of(s.as_str());
                    match parse_fixed_hex(&cs, 32) {
                        Some(b) => {
                            hash = Some(H256 { bytes: b });
                        },
                        None => {
                            proof {
                                lemma_block_fields_stuck(entries@, i as int + 1);
                            }
                            return Err(ParseError::InvalidHex);
                        },
                    }
                },
                _ => {
                    proof {
                        lemma_block_fields_stuck(entries@, i as int + 1);
                    }
                    return Err(ParseError::InvalidType);
                },
            }
        } else if text_is(
            &key,
            vec!['r', 'e', 'q', 'u', 'i', 'r', 'e', 'C', 'a', 'n', 'o', 'n', 'i', 'c', 'a', 'l'],
        ) {
            match value {
                Json::Bool(b) => {
                    canonical = *b;
                },
                _ => {
                    proof {
                        lemma_block_fields_stuck(entries@, i as int + 1);
                    }
                    return Err(ParseError::InvalidType);
                },
            }
        } else {
            let name = entries[i].0.clone();
            proof {
                lemma_block_fields_stuck(entries@, i as int + 1);
            }
            return Err(ParseError::UnknownField(name));
        }
        i = i + 1;
    }
    proof {
        assert(entries@.subrange(0, i as int) =~= entries@);
    }
    Ok((hash, canonical))
}

/// Once the scan fails on a prefix, it fails with the same error on the whole.
pub proof fn lemma_block_fields_stuck(entries: Seq<(String, Json)>, j: int)
    requires
        0 <= j <= entries.len(),
        block_fields(entries.subrange(0, j)) is Err,
    ensures
        block_fields(entries) == block_fields(entries.subrange(0, j)),
    decreases entries.len() - j,
{
    if j < entries.len() {
        let next = entries.subrange(0, j + 1);
        assert(next.drop_last() =~= entries.subrange(0, j));
        lemma_block_fields_stuck(entries, j + 1);
    } else {
        assert(entries.subrange(0, j) =~= entries);
    }
}

/// Parses a block number: `latest`, `pending`, `0x` and hex digits, or an
/// object with `blockHash` and optionally `requireCanonical`; any other key
/// is refused.
pub fn parse_block_number(j: &Json) -> (r: Result<Web3BlockNumber, ParseError>)
    ensures
        rview(r) == block_number_of(*j),
{
    match j {
        Json::Str(s) => {
            let cs = chars_of(s.as_str());
            if text_is(&cs, vec!['l', 'a', 't', 'e', 's', 't']) {
                Ok(Web3BlockNumber::Latest)
            } else if text_is(&cs, vec!['p', 'e', 'n', 'd', 'i', 'n', 'g']) {
                Ok(Web3BlockNumber::Pending)
            } else {
                match parse_hex_u64(&cs) {
                    Ok(n) => Ok(Web3BlockNumber::Num(n)),
                    Err(e) => Err(e),
                }
            }
        },
        Json::Object(entries) => match read_block_fields(entries) {
            Ok((hash, canonical)) => match hash {
                Some(h) => Ok(Web3BlockNumber::Hash { hash: h, require_canonical: canonical }),
                None => Err(ParseError::MissingField),
            },
            Err(e) => Err(e),
        },
        _ => Err(ParseError::InvalidType),
    }
}

/// Parses a canonical block identifier: `latest`, `0x` and hex digits, or an
/// object with `blockHash` (and optionally `requireCanonical`); any other key
/// is refused.
pub fn parse_block_id(j: &Json) -> (r: Result<BlockId, ParseError>)
    ensures
        rview(r) == block_id_of(*j),
{
    match j {
        Json::Str(s) => {
            let cs = chars_of(s.as_str());
            if text_is(&cs, vec!['l', 'a', 't', 'e', 's', 't']) {
                Ok(BlockId::Latest)
            } else {
                match parse_hex_u64(&cs) {
                    Ok(n) => Ok(BlockId::Num(n)),
                    Err(e) => Err(e),
                }
            }
        },
        Json::Object(entries) => match read_block_fields(entries) {
            Ok((hash, _canonical)) => match hash {
                Some(h) => Ok(BlockId::Hash(h)),
                None => Err(ParseError::MissingField),
            },
            Err(e) => Err(e),
        },
        _ => Err(ParseError::InvalidType),
    }
}

/// A non-negative index into a list of filters or logs.
#[derive(Debug, PartialEq, Eq)]
pub struct Index(pub usize);

impl Index {
    pub fn value(&self) -> (r: usize)
        ensures
            r == self.0,
    {
        self.0
    }
}

/// Parses an index: `0x` and hex digits, or decimal digits.
pub fn parse_index(j: &Json) -> (r: Result<Index, ParseError>)
    ensures
        match (r, index_of(*j)) {
            (Ok(i), Ok(n)) => i.0 == n,
            (Err(e), Err(f)) => e@ == f,
            _ => false,
        },
{
    match j {
        Json::Str(s) => {
            let cs = chars_of(s.as_str());
            let v = if cs.len() >= 2 && cs[0] == '0' && cs[1] == 'x' {
                parse_digits_exec(&cs, 2, 16, usize::MAX as u64)
            } else {
                proof {
                    assert(cs@.subrange(0, cs@.len() as int) =~= cs@);
                }
                parse_digits_exec(&cs, 0, 10, usize::MAX as u64)
            };
            match v {
                Some(n) => Ok(Index(n as usize)),
                None => Err(ParseError::InvalidIndex),
            }
        },
        _ => Err(ParseError::InvalidIndex),
    }
}

pub open spec fn hex_chars() -> Seq<char> {
    seq!['0', '1', '2', '3', '4', '5', '6', '7', '8', '9', 'a', 'b', 'c', 'd', 'e', 'f']
}

/// Lowercase hex digits of `n`, without leading zeros (`0` for zero).
pub open spec fn lower_hex(n: nat) -> Seq<char>
    decreases n,
{
    if n < 16 {
        seq![hex_chars()[n as int]]
    } else {
        lower_hex(n / 16).push(hex_chars()[(n % 16) as int])
    }
}

/// Two lowercase hex digits per byte.
pub open spec fn bytes_hex(b: Seq<u8>) -> Seq<char>
    decreases b.len(),
{
    if b.len() == 0 {
        Seq::empty()
    } else {
        bytes_hex(b.drop_last()) + seq![
            hex_chars()[(b.last() / 16) as int],
            hex_chars()[(b.last() % 16) as int],
        ]
    }
}

pub open spec fn lit_hash_open() -> Seq<char> {
    seq!['{', ' ', '\'', 'h', 'a', 's', 'h', '\'', ':', ' ', '\'', '0', 'x']
}

pub open spec fn lit_canonical_open() -> Seq<char> {
    seq![
        '\'', ',', ' ', '\'', 'r', 'e', 'q', 'u', 'i', 'r', 'e', 'C', 'a', 'n', 'o', 'n', 'i', 'c',
        'a', 'l', '\'', ':', ' ', '\'',
    ]
}

pub open spec fn lit_close() -> Seq<char> {
    seq!['\'', ' ', ' ', '}']
}

pub open spec fn bool_text(b: bool) -> Seq<char> {
    if b {
        seq!['t', 'r', 'u', 'e']
    } else {
        seq!['f', 'a', 'l', 's', 'e']
    }
}

/// The descriptive object form of a block hash.
pub open spec fn hash_text(h: Seq<u8>, require_canonical: bool) -> Seq<char> {
    lit_hash_open() + bytes_hex(h) + lit_canonical_open() + bool_text(require_canonical) + lit_close()
}

pub open spec fn number_text(n: u64) -> Seq<char> {
    seq!['0', 'x'] + lower_hex(n as nat)
}

/// How a response writes a canonical block identifier.
pub open spec fn block_id_text(id: BlockIdView) -> Seq<char> {
    match id {
        BlockIdView::Latest => lit_latest(),
        BlockIdView::Num(n) => number_text(n),
        BlockIdView::Hash(h) => hash_text(h, false),
    }
}

/// How a response writes a block number.
pub open spec fn block_number_text(b: BlockNumberView) -> Seq<char> {
    match b {
        BlockNumberView::Hash(h, c) => hash_text(h, c),
        BlockNumberView::Num(n) => number_text(n),
        BlockNumberView::Latest => lit_latest(),
        BlockNumberView::Pending => lit_pending(),
    }
}

fn hex_char(d: u8) -> (r: char)
    requires
        d < 16,
    ensures
        r == hex_chars()[d as int],
{
    let t = vec!['0', '1', '2', '3', '4', '5', '6', '7', '8', '9', 'a', 'b', 'c', 'd', 'e', 'f'];
    t[d as usize]
}

fn push_all(out: &mut Vec<char>, s: Vec<char>)
    ensures
        final(out)@ == old(out)@ + s@,
{
    let mut i: usize = 0;
    while i < s.len()
        invariant
            i <= s@.len(),
            out@ == old(out)@ + s@.subrange(0, i as int),
        decreases s@.len() - i,
    {
        out.push(s[i]);
        i = i + 1;
        proof {
            assert(out@ =~= old(out)@ + s@.subrange(0, i as int));
        }
    }
    proof {
        assert(s@.subrange(0, i as int) =~= s@);
    }
}

fn lower_hex_exec(n: u64) -> (r: Vec<char>)
    ensures
        r@ == lower_hex(n as nat),
{
    let mut r: Vec<char> = vec![hex_char((n % 16) as u8)];
    let mut x: u64 = n / 16;
    while x > 0
        invariant
            x > 0 ==> lower_hex(n as nat) == lower_hex(x as nat) + r@,
            x == 0 ==> lower_hex(n as nat) == r@,
        decreases x,
    {
        let c = hex_char((x % 16) as u8);
        r.insert(0, c);
        proof {
            if x >= 16 {
                assert(lower_hex(n as nat) =~= lower_hex((x / 16) as nat) + r@);
            } else {
                assert(lower_hex(n as nat) =~= r@);
            }
        }
        x = x / 16;
    }
    r
}

fn hash_text_exec(h: &H256, require_canonical: bool) -> (r: Vec<char>)
    ensures
        r@ == hash_text(h@, require_canonical),
{
    let mut out: Vec<char> = vec!['{', ' ', '\'', 'h', 'a', 's', 'h', '\'', ':', ' ', '\'', '0', 'x'];
    let ghost start = out@;
    let mut i: usize = 0;
    while i < h.bytes.len()
        invariant
            i <= h@.len(),
            out@ == start + bytes_hex(h@.subrange(0, i as int)),
        decreases h@.len() - i,
    {
        let b = h.bytes[i];
        let ghost before = out@;
        out.push(hex_char(b / 16));
        out.push(hex_char(b % 16));
        proof {
            assert(h@.subrange(0, i + 1).drop_last() =~= h@.subrange(0, i as int));
        }
        i = i + 1;
        proof {
            assert(out@ =~= start + bytes_hex(h@.subrange(0, i as int)));
        }
    }
    proof {
        assert(h@.subrange(0, i as int) =~= h@);
    }
    push_all(
        &mut out,
        vec![
            '\'', ',', ' ', '\'', 'r', 'e', 'q', 'u', 'i', 'r', 'e', 'C', 'a', 'n', 'o', 'n', 'i', 'c',
            'a', 'l', '\'', ':', ' ', '\'',
        ],
    );
    if require_canonical {
        push_all(&mut out, vec!['t', 'r', 'u', 'e']);
    } else {
        push_all(&mut out, vec!['f', 'a', 'l', 's', 'e']);
    }
    push_all(&mut out, vec!['\'', ' ', ' ', '}']);
    proof {
        assert(out@ =~= hash_text(h@, require_canonical));
    }
    out
}

fn number_text_exec(n: u64) -> (r: Vec<char>)
    ensures
        r@ == number_text(n),
{
    let mut out = vec!['0', 'x'];
    push_all(&mut out, lower_hex_exec(n));
    out
}

impl BlockId {
    /// The text a response writes for this identifier.
    pub fn text(&self) -> (r: Vec<char>)
        ensures
            r@ == block_id_text(self@),
    {
        match self {
            BlockId::Latest => vec!['l', 'a', 't', 'e', 's', 't'],
            BlockId::Num(n) => number_text_exec(*n),
            BlockId::Hash(h) => hash_text_exec(h, false),
        }
    }
}

impl Web3BlockNumber {
    /// The text a response writes for this block number.
    pub fn text(&self) -> (r: Vec<char>)
        ensures
            r@ == block_number_text(self@),
    {
        match self {
            Web3BlockNumber::Hash { hash, require_canonical } => hash_text_exec(hash, *require_canonical),
            Web3BlockNumber::Num(n) => number_text_exec(*n),
            Web3BlockNumber::Latest => vec!['l', 'a', 't', 'e', 's', 't'],
            Web3BlockNumber::Pending => vec!['p', 'e', 'n', 'd', 'i', 'n', 'g'],
        }
    }
}

/// Bytes as a response writes them: `0x` and two digits per byte.
pub open spec fn data_text(b: Seq<u8>) -> Seq<char> {
    seq!['0', 'x'] + bytes_hex(b)
}

/// A big-endian number as a response writes it: `0x` and its hex digits
/// without leading zeros, `0x0` for zero.
pub open spec fn quantity_text(b: Seq<u8>) -> Seq<char> {
    let t = strip_zeros(b);
    if t.len() == 0 {
        seq!['0', 'x', '0']
    } else {
        seq!['0', 'x'] + lower_hex(t[0] as nat) + bytes_hex(t.subrange(1, t.len() as int))
    }
}

fn push_bytes_hex(out: &mut Vec<char>, b: &[u8], from: usize)
    requires
        from <= b@.len(),
    ensures
        final(out)@ == old(out)@ + bytes_hex(b@.subrange(from as int, b@.len() as int)),
{
    let ghost start = out@;
    let mut i: usize = from;
    proof {
        assert(b@.subrange(from as int, from as int) =~= Seq::<u8>::empty());
        assert(out@ =~= start + bytes_hex(b@.subrange(from as int, from as int)));
    }
    while i < b.len()
        invariant
            from <= i <= b@.len(),
            start == old(out)@,
            out@ == start + bytes_hex(b@.subrange(from as int, i as int)),
        decreases b@.len() - i,
    {
        let x = b[i];
        out.push(hex_char(x / 16));
        out.push(hex_char(x % 16));
        proof {
            assert(b@.subrange(from as int, i + 1).drop_last() =~= b@.subrange(from as int, i as int));
        }
        i = i + 1;
        proof {
            assert(out@ =~= start + bytes_hex(b@.subrange(from as int, i as int)));
        }
    }
}

/// `0x` and two hex digits per byte.
pub fn data_text_exec(b: &[u8]) -> (r: Vec<char>)
    ensures
        r@ == data_text(b@),
{
    let mut out = vec!['0', 'x'];
    push_bytes_hex(&mut out, b, 0);
    proof {
        assert(b@.subrange(0, b@.len() as int) =~= b@);
    }
    out
}

/// `0x` and the hex digits of a big-endian number, without leading zeros.
pub fn quantity_text_exec(b: &[u8]) -> (r: Vec<char>)
    ensures
        r@ == quantity_text(b@),
{
    let mut k: usize = 0;
    proof {
        assert(b@.subrange(0, b@.len() as int) =~= b@);
    }
    while k < b.len() && b[k] == 0
        invariant
            k <= b@.len(),
            strip_zeros(b@) == strip_zeros(b@.subrange(k as int, b@.len() as int)),
        decreases b@.len() - k,
    {
        proof {
            let t = b@.subrange(k as int, b@.len() as int);
            assert(t.subrange(1, t.len() as int) =~= b@.subrange(k + 1, b@.len() as int));
        }
        k = k + 1;
    }
    let ghost t = b@.subrange(k as int, b@.len() as int);
    if k == b.len() {
        proof {
            assert(t =~= Seq::<u8>::empty());
        }
        return vec!['0', 'x', '0'];
    }
    let mut out = vec!['0', 'x'];
    push_all(&mut out, lower_hex_exec(b[k] as u64));
    push_bytes_hex(&mut out, b, k + 1);
    proof {
        assert(strip_zeros(b@) == t);
        assert(t.subrange(1, t.len() as int) =~= b@.subrange(k + 1, b@.len() as int));
    }
    out
}

} // verus!
