//! Wire format of typed transactions: a 0x02 discriminator followed by a list
//! of 9 (unsigned) or 12 (signed) framed fields.
use vstd::prelude::*;

use crate::rlp_frame::{
    all_framed, be_bytes, be_value, concat, encodable_len, framed, keccak256, keccak_of,
    rlp_count_of, rlp_encode_list, rlp_encode_string, rlp_item_at, rlp_item_count, rlp_item_of,
    rlp_list, rlp_payload_of, rlp_str, rlp_string_payload, views,
};
use crate::scalar::{
    decode_uint, encode_u64, exact_bytes, lemma_be_bytes, lemma_pad_strip, lemma_pow256_8,
    left_pad, pad_canonical, pow256, strip_leading_zeros, strip_zeros,
};
use crate::types::{
    entry_views, hash_views, AccessListItem, AccessListItemView, FormatError, H160, H256, Public,
    SignatureComponents, SignatureView, SignedTransaction, SignedView, Transaction,
    TransactionAction, TransactionView, U256, UnverifiedTransaction, UnverifiedView,
};

verus! {

/// Typed-transaction discriminator byte.
pub const TX_TYPE: u8 = 2;

pub open spec fn int_field(n: nat) -> Seq<u8> {
    rlp_str(be_bytes(n))
}

pub open spec fn u256_field(u: Seq<u8>) -> Seq<u8> {
    rlp_str(strip_zeros(u))
}

pub open spec fn action_field(a: Option<Seq<u8>>) -> Seq<u8> {
    match a {
        Some(x) => rlp_str(x),
        None => rlp_str(Seq::empty()),
    }
}

pub open spec fn slot_fields(slots: Seq<Seq<u8>>) -> Seq<Seq<u8>> {
    slots.map_values(|s: Seq<u8>| rlp_str(s))
}

pub open spec fn entry_items(e: AccessListItemView) -> Seq<Seq<u8>> {
    seq![rlp_str(e.address), rlp_list(slot_fields(e.slots))]
}

pub open spec fn entry_field(e: AccessListItemView) -> Seq<u8> {
    rlp_list(entry_items(e))
}

pub open spec fn entry_fields(l: Seq<AccessListItemView>) -> Seq<Seq<u8>> {
    l.map_values(|e: AccessListItemView| entry_field(e))
}

pub open spec fn access_list_field(l: Seq<AccessListItemView>) -> Seq<u8> {
    rlp_list(entry_fields(l))
}

/// The nine fields that every transaction carries, in wire order.
pub open spec fn unsigned_fields(chain_id: u64, t: TransactionView) -> Seq<Seq<u8>> {
    seq![
        int_field(chain_id as nat),
        u256_field(t.nonce),
        u256_field(t.max_priority_fee_per_gas),
        u256_field(t.gas_price),
        u256_field(t.gas_limit),
        action_field(t.action),
        u256_field(t.value),
        rlp_str(t.data),
        access_list_field(t.access_list),
    ]
}

pub open spec fn signature_fields(s: SignatureView) -> Seq<Seq<u8>> {
    seq![int_field(s.standard_v as nat), rlp_str(s.r), rlp_str(s.s)]
}

/// All fields of a transaction: the signature adds three.
pub open spec fn tx_fields(v: UnverifiedView) -> Seq<Seq<u8>> {
    match v.signature {
        Some(s) => unsigned_fields(v.chain_id, v.unsigned) + signature_fields(s),
        None => unsigned_fields(v.chain_id, v.unsigned),
    }
}

/// The framed field list, without the discriminator.
pub open spec fn tx_body(v: UnverifiedView) -> Seq<u8> {
    rlp_list(tx_fields(v))
}

/// The full wire bytes: discriminator, then the field list.
pub open spec fn tx_wire(v: UnverifiedView) -> Seq<u8> {
    seq![TX_TYPE] + tx_body(v)
}

/// The hash of a transaction: the digest of its wire bytes.
pub open spec fn tx_hash(v: UnverifiedView) -> Seq<u8> {
    keccak_of(tx_wire(v))
}

/// `v` with its hash recomputed from its content.
pub open spec fn sealed(v: UnverifiedView) -> UnverifiedView {
    UnverifiedView { hash: tx_hash(v), ..v }
}

/// The field list fits the encoder's length limit.
pub open spec fn body_fits(v: UnverifiedView) -> bool {
    encodable_len(concat(tx_fields(v)).len())
}

pub open spec fn public_field(p: Option<Seq<u8>>) -> Seq<u8> {
    match p {
        Some(k) => rlp_list(seq![rlp_str(k)]),
        None => rlp_list(Seq::empty()),
    }
}

pub open spec fn signed_fields(v: SignedView) -> Seq<Seq<u8>> {
    seq![tx_body(v.transaction), rlp_str(v.sender), public_field(v.public)]
}

/// Encoding of a transaction with its sender: a three-item list.
pub open spec fn signed_body(v: SignedView) -> Seq<u8> {
    rlp_list(signed_fields(v))
}

pub open spec fn signed_fits(v: SignedView) -> bool {
    body_fits(v.transaction) && encodable_len(concat(signed_fields(v)).len())
}

pub open spec fn entries_wf(l: Seq<AccessListItemView>) -> bool {
    forall|k: int| 0 <= k < l.len() ==> (#[trigger] l[k]).wf()
}

pub proof fn lemma_concat_len(items: Seq<Seq<u8>>, i: int)
    requires
        0 <= i < items.len(),
    ensures
        items[i].len() <= concat(items).len(),
    decreases items.len(),
{
    if i < items.len() - 1 {
        lemma_concat_len(items.drop_last(), i);
    }
}

pub proof fn lemma_str_framed(p: Seq<u8>)
    ensures
        framed(rlp_str(p)),
        p.len() <= rlp_str(p).len(),
{
}

pub proof fn lemma_list_framed(q: Seq<Seq<u8>>)
    ensures
        framed(rlp_list(q)),
        concat(q).len() <= rlp_list(q).len(),
{
}

pub broadcast proof fn lemma_tx_fields_framed(v: UnverifiedView)
    ensures
        #[trigger] all_framed(tx_fields(v)),
{
    let f = tx_fields(v);
    let t = v.unsigned;
    lemma_str_framed(be_bytes(v.chain_id as nat));
    lemma_str_framed(strip_zeros(t.nonce));
    lemma_str_framed(strip_zeros(t.max_priority_fee_per_gas));
    lemma_str_framed(strip_zeros(t.gas_price));
    lemma_str_framed(strip_zeros(t.gas_limit));
    lemma_str_framed(Seq::empty());
    if let Some(a) = t.action {
        lemma_str_framed(a);
    }
    lemma_str_framed(strip_zeros(t.value));
    lemma_str_framed(t.data);
    lemma_list_framed(entry_fields(t.access_list));
    if let Some(s) = v.signature {
        lemma_str_framed(be_bytes(s.standard_v as nat));
        lemma_str_framed(s.r);
        lemma_str_framed(s.s);
    }
    assert forall|i: int| 0 <= i < f.len() implies #[trigger] framed(f[i]) by {
    }
}

pub proof fn lemma_entries_framed(l: Seq<AccessListItemView>)
    ensures
        all_framed(entry_fields(l)),
{
    assert forall|i: int| 0 <= i < entry_fields(l).len() implies #[trigger] framed(
        entry_fields(l)[i],
    ) by {
        lemma_list_framed(entry_items(l[i]));
    }
}

pub proof fn lemma_entry_items_framed(e: AccessListItemView)
    ensures
        all_framed(entry_items(e)),
{
    lemma_str_framed(e.address);
    lemma_list_framed(slot_fields(e.slots));
    assert forall|i: int| 0 <= i < entry_items(e).len() implies #[trigger] framed(
        entry_items(e)[i],
    ) by {
    }
}

pub proof fn lemma_slots_framed(s: Seq<Seq<u8>>)
    ensures
        all_framed(slot_fields(s)),
{
    assert forall|i: int| 0 <= i < slot_fields(s).len() implies #[trigger] framed(
        slot_fields(s)[i],
    ) by {
        lemma_str_framed(s[i]);
    }
}

pub proof fn lemma_signed_framed(v: SignedView)
    ensures
        all_framed(signed_fields(v)),
{
    lemma_list_framed(tx_fields(v.transaction));
    lemma_str_framed(v.sender);
    match v.public {
        Some(k) => lemma_list_framed(seq![rlp_str(k)]),
        None => lemma_list_framed(Seq::empty()),
    }
    assert forall|i: int| 0 <= i < signed_fields(v).len() implies #[trigger] framed(
        signed_fields(v)[i],
    ) by {
    }
}

/// The fields of `v` whose access list, after `v`'s own entries, has an entry
/// that is a list of `bad` items, followed by the framed items `rest`.
pub open spec fn fields_with_bad_entry(
    v: UnverifiedView,
    bad: Seq<Seq<u8>>,
    rest: Seq<Seq<u8>>,
) -> Seq<Seq<u8>> {
    tx_fields(v).update(8, bad_entry_list(v.unsigned.access_list, bad, rest))
}

pub broadcast proof fn lemma_bad_fields_framed(v: UnverifiedView, bad: Seq<Seq<u8>>, rest: Seq<Seq<u8>>)
    ensures
        #[trigger] all_framed(fields_with_bad_entry(v, bad, rest)),
{
    lemma_tx_fields_framed(v);
    lemma_list_framed(bad_entries(v.unsigned.access_list, bad, rest));
    let f = fields_with_bad_entry(v, bad, rest);
    assert forall|i: int| 0 <= i < f.len() implies #[trigger] framed(f[i]) by {
        if i != 8 {
            assert(f[i] == tx_fields(v)[i]);
        }
    }
}

/// The error is not a field-count error.
pub open spec fn no_count_error<T>(r: Result<T, FormatError>) -> bool {
    !(r matches Err(FormatError::WrongFieldCount))
}

/// What a contract-creation or call action field holds: no payload for a creation.
pub open spec fn action_of(payload: Seq<u8>) -> Option<Seq<u8>> {
    if payload.len() == 0 {
        None
    } else {
        Some(payload)
    }
}

fn item_count(b: &[u8]) -> (r: Result<usize, FormatError>)
    ensures
        no_count_error(r),
        r is Ok ==> r.unwrap() == rlp_count_of(b@),
        forall|items: Seq<Seq<u8>>|
            #[trigger] rlp_list(items) == b@ && all_framed(items) ==> r is Ok && r.unwrap()
                == items.len(),
{
    match rlp_item_count(b) {
        Ok(n) => Ok(n),
        Err(e) => Err(FormatError::Rlp(e)),
    }
}

fn item_at(b: &[u8], i: usize) -> (r: Result<Vec<u8>, FormatError>)
    ensures
        no_count_error(r),
        r is Ok ==> r.unwrap()@ == rlp_item_of(b@, i as nat),
        forall|items: Seq<Seq<u8>>|
            #[trigger] rlp_list(items) == b@ && all_framed(items) && i < items.len() ==> r is Ok
                && r.unwrap()@ == items[i as int],
{
    match rlp_item_at(b, i) {
        Ok(v) => Ok(v),
        Err(e) => Err(FormatError::Rlp(e)),
    }
}

fn string_payload(b: &[u8]) -> (r: Result<Vec<u8>, FormatError>)
    ensures
        no_count_error(r),
        r is Ok ==> r.unwrap()@ == rlp_payload_of(b@),
        forall|p: Seq<u8>| #[trigger] rlp_str(p) == b@ ==> r is Ok && r.unwrap()@ == p,
{
    match rlp_string_payload(b) {
        Ok(v) => Ok(v),
        Err(e) => Err(FormatError::Rlp(e)),
    }
}

/// Reads an integer field of at most `max_len` bytes.
fn decode_int_field(item: &[u8], max_len: usize) -> (r: Result<u64, FormatError>)
    requires
        1 <= max_len <= 8,
    ensures
        no_count_error(r),
        r matches Ok(n) ==> (n as nat) < pow256(max_len as nat) && n as nat == be_value(
            rlp_payload_of(item@),
        ),
        forall|n: u64|
            (n as nat) < pow256(max_len as nat) && #[trigger] int_field(n as nat) == item@
                ==> r == Ok::<u64, FormatError>(n),
{
    let p = string_payload(item);
    proof {
        assert forall|n: u64|
            (n as nat) < pow256(max_len as nat) && #[trigger] int_field(n as nat) == item@ implies p
            is Ok && p.unwrap()@ == be_bytes(n as nat) by {}
    }
    match p {
        Ok(p) => {
            let r = decode_uint(p.as_slice(), max_len);
            proof {
                assert forall|n: u64|
                    (n as nat) < pow256(max_len as nat) && #[trigger] int_field(n as nat)
                        == item@ implies r == Ok::<u64, FormatError>(n) by {
                    lemma_be_bytes(n as nat, max_len as nat);
                }
            }
            r
        },
        Err(e) => Err(e),
    }
}

fn decode_u256_field(item: &[u8]) -> (r: Result<U256, FormatError>)
    ensures
        no_count_error(r),
        r is Ok ==> r.unwrap()@ == left_pad(rlp_payload_of(item@), 32),
        r is Ok ==> r.unwrap().wf(),
        forall|u: Seq<u8>|
            u.len() == 32 && #[trigger] u256_field(u) == item@ ==> r is Ok && r.unwrap()@ == u,
{
    let p = string_payload(item)?;
    proof {
        assert forall|u: Seq<u8>| u.len() == 32 && #[trigger] u256_field(u) == item@ implies p@
            == strip_zeros(u) by {}
    }
    let b = pad_canonical(p.as_slice(), 32);
    proof {
        assert forall|u: Seq<u8>| u.len() == 32 && #[trigger] u256_field(u) == item@ implies b is Ok
            && b.unwrap()@ == u by {
            lemma_pad_strip(u);
        }
    }
    let b = b?;
    Ok(U256 { bytes: b })
}

fn decode_fixed_field(item: &[u8], n: usize) -> (r: Result<Vec<u8>, FormatError>)
    ensures
        no_count_error(r),
        r is Ok ==> r.unwrap()@ == rlp_payload_of(item@),
        r is Ok ==> r.unwrap()@.len() == n,
        forall|x: Seq<u8>| x.len() == n && #[trigger] rlp_str(x) == item@ ==> r is Ok && r.unwrap()@ == x,
{
    let p = string_payload(item)?;
    exact_bytes(p.as_slice(), n)
}

fn decode_bytes_field(item: &[u8]) -> (r: Result<Vec<u8>, FormatError>)
    ensures
        no_count_error(r),
        r is Ok ==> r.unwrap()@ == rlp_payload_of(item@),
        forall|x: Seq<u8>| #[trigger] rlp_str(x) == item@ ==> r is Ok && r.unwrap()@ == x,
{
    string_payload(item)
}

fn decode_action_field(item: &[u8]) -> (r: Result<TransactionAction, FormatError>)
    ensures
        no_count_error(r),
        r is Ok ==> r.unwrap()@ == action_of(rlp_payload_of(item@)),
        r matches Ok(a) ==> (a@ matches Some(x) ==> x.len() == 20),
        forall|a: Option<Seq<u8>>|
            (a matches Some(x) ==> x.len() == 20) && #[trigger] action_field(a) == item@ ==> r is Ok
                && r.unwrap()@ == a,
{
    let p = string_payload(item)?;
    if p.len() == 0 {
        proof {
            assert forall|a: Option<Seq<u8>>|
                (a matches Some(x) ==> x.len() == 20) && #[trigger] action_field(a)
                    == item@ implies a is None by {
                if let Some(x) = a {
                    assert(p@ == x);
                }
            }
        }
        Ok(TransactionAction::Create)
    } else {
        let b = exact_bytes(p.as_slice(), 20)?;
        proof {
            assert forall|a: Option<Seq<u8>>|
                (a matches Some(x) ==> x.len() == 20) && #[trigger] action_field(a)
                    == item@ implies a == Some(b@) by {
                if a is None {
                    assert(p@ == Seq::<u8>::empty());
                }
            }
        }
        Ok(TransactionAction::Call(H160 { bytes: b }))
    }
}

/// The payload of item `i` of `b`, as the readers report it.
pub open spec fn item_payload(b: Seq<u8>, i: nat) -> Seq<u8> {
    rlp_payload_of(rlp_item_of(b, i))
}

/// Slots `s` are the payloads of the items of `item`, in order.
pub open spec fn slots_decoded_from(item: Seq<u8>, s: Seq<Seq<u8>>) -> bool {
    &&& rlp_count_of(item) == s.len()
    &&& forall|j: int| 0 <= j < s.len() ==> #[trigger] s[j] == item_payload(item, j as nat)
}

/// Entry `e` is read from the two items of `item`: an address and a slot list.
pub open spec fn entry_decoded_from(item: Seq<u8>, e: AccessListItemView) -> bool {
    &&& rlp_count_of(item) == 2
    &&& e.address == item_payload(item, 0)
    &&& slots_decoded_from(rlp_item_of(item, 1), e.slots)
}

/// Access list `l` is read entry by entry from the items of `item`.
pub open spec fn list_decoded_from(item: Seq<u8>, l: Seq<AccessListItemView>) -> bool {
    &&& rlp_count_of(item) == l.len()
    &&& forall|k: int| 0 <= k < l.len() ==> entry_decoded_from(rlp_item_of(item, k as nat), #[trigger] l[k])
}

/// Every field of `t` is read from the item of `body` at its position.
pub open spec fn decoded_from(body: Seq<u8>, t: UnverifiedView) -> bool {
    &&& t.chain_id as nat == be_value(item_payload(body, 0))
    &&& t.unsigned.nonce == left_pad(item_payload(body, 1), 32)
    &&& t.unsigned.max_priority_fee_per_gas == left_pad(item_payload(body, 2), 32)
    &&& t.unsigned.gas_price == left_pad(item_payload(body, 3), 32)
    &&& t.unsigned.gas_limit == left_pad(item_payload(body, 4), 32)
    &&& t.unsigned.action == action_of(item_payload(body, 5))
    &&& t.unsigned.value == left_pad(item_payload(body, 6), 32)
    &&& t.unsigned.data == item_payload(body, 7)
    &&& list_decoded_from(rlp_item_of(body, 8), t.unsigned.access_list)
    &&& match t.signature {
        Some(sg) => {
            &&& rlp_count_of(body) == 12
            &&& sg.standard_v as nat == be_value(item_payload(body, 9))
            &&& sg.r == item_payload(body, 10)
            &&& sg.s == item_payload(body, 11)
        },
        None => rlp_count_of(body) == 9,
    }
}

pub open spec fn slots_target(item: Seq<u8>, s: Seq<Seq<u8>>) -> bool {
    &&& forall|j: int| 0 <= j < s.len() ==> (#[trigger] s[j]).len() == 32
    &&& rlp_list(slot_fields(s)) == item
}

fn decode_slots(item: &[u8]) -> (r: Result<Vec<H256>, FormatError>)
    ensures
        no_count_error(r),
        r matches Ok(v) ==> slots_decoded_from(item@, hash_views(v@)),
        r matches Ok(v) ==> forall|j: int| 0 <= j < v@.len() ==> (#[trigger] v@[j]).wf(),
        forall|s: Seq<Seq<u8>>| #[trigger] slots_target(item@, s) ==> r is Ok && hash_views(r.unwrap()@) == s,
{
    let n = item_count(item)?;
    proof {
        assert forall|s: Seq<Seq<u8>>| #[trigger] slots_target(item@, s) implies n == s.len() by {
            lemma_slots_framed(s);
        }
    }
    let mut out: Vec<H256> = Vec::new();
    let mut j: usize = 0;
    while j < n
        invariant
            j <= n,
            n == rlp_count_of(item@),
            out@.len() == j,
            forall|jj: int| 0 <= jj < out@.len() ==> (#[trigger] out@[jj]).wf(),
            forall|jj: int|
                0 <= jj < out@.len() ==> (#[trigger] out@[jj])@ == item_payload(item@, jj as nat),
            forall|s: Seq<Seq<u8>>| #[trigger] slots_target(item@, s)
                ==> n == s.len() && hash_views(out@) =~= s.subrange(0, j as int),
        decreases n - j,
    {
        let x = match item_at(item, j) {
            Ok(x) => x,
            Err(e) => {
                proof {
                    assert forall|s: Seq<Seq<u8>>| #[trigger] slots_target(item@, s) implies false by {
                        lemma_slots_framed(s);
                    }
                }
                return Err(e);
            },
        };
        let h = match decode_fixed_field(x.as_slice(), 32) {
            Ok(h) => h,
            Err(e) => {
                proof {
                    assert forall|s: Seq<Seq<u8>>| #[trigger] slots_target(item@, s) implies false by {
                        lemma_slots_framed(s);
                        assert(x@ == slot_fields(s)[j as int]);
                        assert(slot_fields(s)[j as int] == rlp_str(s[j as int]));
                    }
                }
                return Err(e);
            },
        };
        let ghost before = out@;
        out.push(H256 { bytes: h });
        proof {
            assert forall|s: Seq<Seq<u8>>| #[trigger] slots_target(item@, s)
                implies n == s.len() && hash_views(out@)
                =~= s.subrange(0, j + 1) by {
                lemma_slots_framed(s);
                assert(x@ == slot_fields(s)[j as int]);
                assert(slot_fields(s)[j as int] == rlp_str(s[j as int]));
                assert(hash_views(out@) =~= hash_views(before).push(h@));
            }
        }
        j = j + 1;
    }
    proof {
        assert forall|s: Seq<Seq<u8>>| #[trigger] slots_target(item@, s) implies hash_views(out@) == s by {
            assert(s.subrange(0, n as int) =~= s);
        }
    }
    Ok(out)
}

fn decode_entry(item: &[u8]) -> (r: Result<AccessListItem, FormatError>)
    ensures
        no_count_error(r),
        r matches Ok(e) ==> entry_decoded_from(item@, e@),
        r matches Ok(e) ==> e@.wf(),
        forall|e: AccessListItemView| e.wf() && #[trigger] entry_field(e) == item@
            ==> r is Ok && r.unwrap()@ == e,
        forall|items: Seq<Seq<u8>>|
            #[trigger] rlp_list(items) == item@ && all_framed(items) && items.len() != 2 ==> r
                == Err::<AccessListItem, FormatError>(FormatError::BadAccessListEntry),
{
    let c = item_count(item)?;
    proof {
        assert forall|e: AccessListItemView| e.wf() && #[trigger] entry_field(e) == item@ implies c == 2 by {
            lemma_entry_items_framed(e);
        }
    }
    if c != 2 {
        return Err(FormatError::BadAccessListEntry);
    }
    let a = item_at(item, 0)?;
    let addr = decode_fixed_field(a.as_slice(), 20)?;
    let s = item_at(item, 1)?;
    proof {
        assert forall|e: AccessListItemView| e.wf() && #[trigger] entry_field(e) == item@
            implies addr@ == e.address
            && slots_target(s@, e.slots) by {
            lemma_entry_items_framed(e);
            assert(a@ == entry_items(e)[0]);
            assert(s@ == entry_items(e)[1]);
        }
    }
    let slots = match decode_slots(s.as_slice()) {
        Ok(v) => v,
        Err(err) => {
            proof {
                assert forall|e: AccessListItemView| e.wf() && #[trigger] entry_field(e) == item@
                    implies false by {
                    assert(slots_target(s@, e.slots));
                }
            }
            return Err(err);
        },
    };
    let out = AccessListItem { address: H160 { bytes: addr }, slots };
    proof {
        assert forall|e: AccessListItemView| e.wf() && #[trigger] entry_field(e) == item@
            implies out@ == e by {
            assert(slots_target(s@, e.slots));
        }
    }
    Ok(out)
}

pub open spec fn list_target(item: Seq<u8>, l: Seq<AccessListItemView>) -> bool {
    entries_wf(l) && access_list_field(l) == item
}

/// Entries `l`, then one entry that is a list of `bad.len()` items, then
/// the framed items `rest`.
pub open spec fn bad_entries(l: Seq<AccessListItemView>, bad: Seq<Seq<u8>>, rest: Seq<Seq<u8>>) -> Seq<
    Seq<u8>,
> {
    entry_fields(l).push(rlp_list(bad)) + rest
}

pub open spec fn bad_entry_list(
    l: Seq<AccessListItemView>,
    bad: Seq<Seq<u8>>,
    rest: Seq<Seq<u8>>,
) -> Seq<u8> {
    rlp_list(bad_entries(l, bad, rest))
}

pub open spec fn bad_target(
    item: Seq<u8>,
    l: Seq<AccessListItemView>,
    bad: Seq<Seq<u8>>,
    rest: Seq<Seq<u8>>,
) -> bool {
    &&& entries_wf(l)
    &&& all_framed(bad)
    &&& bad.len() != 2
    &&& all_framed(rest)
    &&& bad_entry_list(l, bad, rest) == item
}

pub proof fn lemma_bad_entries_framed(l: Seq<AccessListItemView>, bad: Seq<Seq<u8>>, rest: Seq<Seq<u8>>)
    requires
        all_framed(rest),
    ensures
        all_framed(bad_entries(l, bad, rest)),
        forall|k: int| 0 <= k < l.len() ==> #[trigger] bad_entries(l, bad, rest)[k] == entry_field(l[k]),
        bad_entries(l, bad, rest)[l.len() as int] == rlp_list(bad),
        bad_entries(l, bad, rest).len() == l.len() + 1 + rest.len(),
{
    lemma_entries_framed(l);
    lemma_list_framed(bad);
    let f = bad_entries(l, bad, rest);
    assert forall|i: int| 0 <= i < f.len() implies #[trigger] framed(f[i]) by {
        if i < entry_fields(l).len() {
            assert(f[i] == entry_fields(l)[i]);
        } else if i > l.len() {
            assert(f[i] == rest[i - l.len() - 1]);
        }
    }
    assert forall|k: int| 0 <= k < l.len() implies #[trigger] bad_entries(l, bad, rest)[k] == entry_field(l[k]) by {
        assert(f[k] == entry_fields(l)[k]);
    }
}

fn decode_access_list(item: &[u8]) -> (r: Result<Vec<AccessListItem>, FormatError>)
    ensures
        no_count_error(r),
        r matches Ok(v) ==> list_decoded_from(item@, entry_views(v@)),
        r matches Ok(v) ==> entries_wf(entry_views(v@)),
        forall|l: Seq<AccessListItemView>| #[trigger] list_target(item@, l)
            ==> r is Ok && entry_views(r.unwrap()@) == l,
        forall|l: Seq<AccessListItemView>, bad: Seq<Seq<u8>>, rest: Seq<Seq<u8>>|
            #[trigger] bad_target(item@, l, bad, rest) ==> r == Err::<Vec<AccessListItem>, FormatError>(
                FormatError::BadAccessListEntry,
            ),
{
    let n = item_count(item)?;
    proof {
        assert forall|l: Seq<AccessListItemView>| #[trigger] list_target(item@, l) implies n == l.len() by {
            lemma_entries_framed(l);
        }
        assert forall|l: Seq<AccessListItemView>, bad: Seq<Seq<u8>>, rest: Seq<Seq<u8>>| #[trigger] bad_target(item@, l, bad, rest)
            implies n == l.len() + 1 + rest.len() by {
            lemma_bad_entries_framed(l, bad, rest);
        }
    }
    let mut out: Vec<AccessListItem> = Vec::new();
    let mut k: usize = 0;
    while k < n
        invariant
            k <= n,
            n == rlp_count_of(item@),
            out@.len() == k,
            entries_wf(entry_views(out@)),
            forall|kk: int|
                0 <= kk < out@.len() ==> entry_decoded_from(
                    rlp_item_of(item@, kk as nat),
                    #[trigger] entry_views(out@)[kk],
                ),
            forall|l: Seq<AccessListItemView>| #[trigger] list_target(item@, l)
                ==> n == l.len() && entry_views(out@) =~= l.subrange(0, k as int),
            forall|l: Seq<AccessListItemView>, bad: Seq<Seq<u8>>, rest: Seq<Seq<u8>>| #[trigger] bad_target(item@, l, bad, rest)
                ==> n == l.len() + 1 + rest.len() && k <= l.len() && entry_views(out@) =~= l.subrange(
                    0,
                    k as int,
                ),
        decreases n - k,
    {
        let x = match item_at(item, k) {
            Ok(x) => x,
            Err(e) => {
                proof {
                    assert forall|l: Seq<AccessListItemView>| #[trigger] list_target(item@, l)
                        implies false by {
                        lemma_entries_framed(l);
                    }
                    assert forall|l: Seq<AccessListItemView>, bad: Seq<Seq<u8>>, rest: Seq<Seq<u8>>|
                        #[trigger] bad_target(item@, l, bad, rest)
                        implies false by {
                        lemma_bad_entries_framed(l, bad, rest);
                    }
                }
                return Err(e);
            },
        };
        proof {
            assert forall|l: Seq<AccessListItemView>, bad: Seq<Seq<u8>>, rest: Seq<Seq<u8>>|
                #[trigger] bad_target(item@, l, bad, rest) implies
                (k < l.len()
                    ==> x@ == entry_field(l[k as int])) && (k == l.len() ==> x@ == rlp_list(bad)) by {
                lemma_bad_entries_framed(l, bad, rest);
                assert(x@ == bad_entries(l, bad, rest)[k as int]);
            }
        }
        let e = match decode_entry(x.as_slice()) {
            Ok(e) => e,
            Err(err) => {
                proof {
                    assert forall|l: Seq<AccessListItemView>| #[trigger] list_target(item@, l)
                        implies false by {
                        lemma_entries_framed(l);
                        assert(x@ == entry_fields(l)[k as int]);
                        assert(entry_fields(l)[k as int] == entry_field(l[k as int]));
                        assert(l[k as int].wf());
                    }
                    assert forall|l: Seq<AccessListItemView>, bad: Seq<Seq<u8>>, rest: Seq<Seq<u8>>|
                        #[trigger] bad_target(item@, l, bad, rest)
                        implies err == FormatError::BadAccessListEntry by {
                        if k < l.len() {
                            assert(l[k as int].wf());
                        }
                    }
                }
                return Err(err);
            },
        };
        proof {
            assert forall|l: Seq<AccessListItemView>, bad: Seq<Seq<u8>>, rest: Seq<Seq<u8>>| #[trigger] bad_target(item@, l, bad, rest)
                implies k < l.len() by {
            }
        }
        let ghost before = out@;
        out.push(e);
        proof {
            assert(entry_views(out@) =~= entry_views(before).push(e@));
            assert forall|l: Seq<AccessListItemView>| #[trigger] list_target(item@, l)
                implies n == l.len() && entry_views(out@)
                =~= l.subrange(0, k + 1) by {
                lemma_entries_framed(l);
                assert(x@ == entry_fields(l)[k as int]);
                assert(entry_fields(l)[k as int] == entry_field(l[k as int]));
                assert(l[k as int].wf());
            }
            assert forall|l: Seq<AccessListItemView>, bad: Seq<Seq<u8>>, rest: Seq<Seq<u8>>| #[trigger] bad_target(item@, l, bad, rest)
                implies n == l.len() + 1 + rest.len() && k + 1 <= l.len() && entry_views(out@)
                =~= l.subrange(0, k + 1) by {
                assert(l[k as int].wf());
            }
        }
        k = k + 1;
    }
    proof {
        assert forall|l: Seq<AccessListItemView>| #[trigger] list_target(item@, l)
            implies entry_views(out@) == l by {
            assert(l.subrange(0, n as int) =~= l);
        }
        assert forall|l: Seq<AccessListItemView>, bad: Seq<Seq<u8>>, rest: Seq<Seq<u8>>| #[trigger] bad_target(item@, l, bad, rest)
            implies false by {
        }
    }
    Ok(out)
}

fn encode_u256_field(u: &U256) -> (r: Vec<u8>)
    requires
        u@.len() == 32,
    ensures
        r@ == u256_field(u@),
{
    let p = strip_leading_zeros(u.bytes.as_slice());
    proof {
        lemma_pad_strip(u@);
    }
    rlp_encode_string(p.as_slice())
}

fn encode_int_field(n: u64) -> (r: Vec<u8>)
    ensures
        r@ == int_field(n as nat),
{
    let p = encode_u64(n);
    proof {
        lemma_pow256_8();
        lemma_be_bytes(n as nat, 8);
    }
    rlp_encode_string(p.as_slice())
}

fn encode_entry(e: &AccessListItem) -> (r: Vec<u8>)
    requires
        e@.wf(),
    ensures
        encodable_len(concat(entry_items(e@)).len()) ==> r@ == entry_field(e@),
{
    let ghost fits = encodable_len(concat(entry_items(e@)).len());
    let mut ss: Vec<Vec<u8>> = Vec::new();
    let mut j: usize = 0;
    while j < e.slots.len()
        invariant
            e@.wf(),
            j <= e.slots@.len(),
            views(ss@) =~= slot_fields(e@.slots).subrange(0, j as int),
        decreases e.slots@.len() - j,
    {
        let ghost before = ss@;
        let x = rlp_encode_string(e.slots[j].bytes.as_slice());
        proof {
            assert(e@.slots[j as int] == e.slots@[j as int]@);
            assert(e@.slots[j as int].len() == 32);
        }
        ss.push(x);
        j = j + 1;
        proof {
            assert(views(ss@) =~= views(before).push(x@));
        }
    }
    proof {
        assert(slot_fields(e@.slots).subrange(0, j as int) =~= slot_fields(e@.slots));
    }
    let slot_list = rlp_encode_list(&ss);
    let addr = rlp_encode_string(e.address.bytes.as_slice());
    let mut pair: Vec<Vec<u8>> = Vec::new();
    pair.push(addr);
    pair.push(slot_list);
    proof {
        if fits {
            lemma_concat_len(entry_items(e@), 1);
            lemma_list_framed(slot_fields(e@.slots));
        }
        assert(fits ==> views(pair@) =~= entry_items(e@));
    }
    rlp_encode_list(&pair)
}

fn encode_access_list(l: &Vec<AccessListItem>) -> (r: Vec<u8>)
    requires
        entries_wf(entry_views(l@)),
    ensures
        encodable_len(concat(entry_fields(entry_views(l@))).len()) ==> r@ == access_list_field(
            entry_views(l@),
        ),
{
    let ghost lv = entry_views(l@);
    let ghost fits = encodable_len(concat(entry_fields(lv)).len());
    let mut items: Vec<Vec<u8>> = Vec::new();
    let mut k: usize = 0;
    while k < l.len()
        invariant
            lv == entry_views(l@),
            entries_wf(lv),
            fits == encodable_len(concat(entry_fields(lv)).len()),
            k <= l@.len(),
            fits ==> views(items@) =~= entry_fields(lv).subrange(0, k as int),
        decreases l@.len() - k,
    {
        let ghost before = items@;
        proof {
            assert(lv[k as int] == l@[k as int]@);
            assert(lv[k as int].wf());
        }
        let x = encode_entry(&l[k]);
        items.push(x);
        proof {
            if fits {
                lemma_concat_len(entry_fields(lv), k as int);
                lemma_list_framed(entry_items(lv[k as int]));
                assert(views(items@) =~= views(before).push(x@));
            }
        }
        k = k + 1;
    }
    proof {
        assert(entry_fields(lv).subrange(0, k as int) =~= entry_fields(lv));
    }
    rlp_encode_list(&items)
}

fn append_bytes(out: &mut Vec<u8>, b: &Vec<u8>)
    ensures
        final(out)@ == old(out)@ + b@,
{
    let mut i: usize = 0;
    while i < b.len()
        invariant
            i <= b@.len(),
            out@ == old(out)@ + b@.subrange(0, i as int),
        decreases b@.len() - i,
    {
        out.push(b[i]);
        i = i + 1;
        proof {
            assert(out@ =~= old(out)@ + b@.subrange(0, i as int));
        }
    }
    proof {
        assert(b@.subrange(0, i as int) =~= b@);
    }
}

impl UnverifiedTransaction {
    /// The framed fields, in wire order.
    fn fields(&self) -> (r: Vec<Vec<u8>>)
        requires
            self@.wf(),
        ensures
            body_fits(self@) ==> views(r@) == tx_fields(self@),
    {
        let ghost v = self@;
        let ghost fits = body_fits(v);
        let t = &self.unsigned;
        let mut f: Vec<Vec<u8>> = Vec::new();
        f.push(encode_int_field(self.chain_id));
        f.push(encode_u256_field(&t.nonce));
        f.push(encode_u256_field(&t.max_priority_fee_per_gas));
        f.push(encode_u256_field(&t.gas_price));
        f.push(encode_u256_field(&t.gas_limit));
        let action = match &t.action {
            TransactionAction::Call(a) => rlp_encode_string(a.bytes.as_slice()),
            TransactionAction::Create => {
                let empty: Vec<u8> = Vec::new();
                rlp_encode_string(empty.as_slice())
            },
        };
        f.push(action);
        f.push(encode_u256_field(&t.value));
        let data = rlp_encode_string(t.data.as_slice());
        f.push(data);
        let al = encode_access_list(&t.access_list);
        f.push(al);
        proof {
            if fits {
                let tf = tx_fields(v);
                assert(tf[7] == rlp_str(v.unsigned.data));
                assert(tf[8] == access_list_field(v.unsigned.access_list));
                lemma_concat_len(tf, 7);
                lemma_concat_len(tf, 8);
                lemma_str_framed(v.unsigned.data);
                lemma_list_framed(entry_fields(v.unsigned.access_list));
                if let Some(a) = v.unsigned.action {
                    assert(a.len() == 20);
                }
                assert(action@ == action_field(v.unsigned.action));
            }
        }
        match &self.signature {
            Some(sig) => {
                f.push(encode_int_field(sig.standard_v as u64));
                f.push(rlp_encode_string(sig.r.bytes.as_slice()));
                f.push(rlp_encode_string(sig.s.bytes.as_slice()));
            },
            None => {},
        }
        proof {
            if fits {
                assert(views(f@) =~= tx_fields(v));
            }
        }
        f
    }

    /// Appends the framed field list (9 or 12 items) to `out`.
    pub fn rlp_append(&self, out: &mut Vec<u8>)
        requires
            self@.wf(),
        ensures
            body_fits(self@) ==> final(out)@ == old(out)@ + tx_body(self@),
    {
        let f = self.fields();
        let b = rlp_encode_list(&f);
        append_bytes(out, &b);
    }

    /// The wire bytes: the discriminator, then the framed field list.
    pub fn rlp_bytes(&self) -> (r: Vec<u8>)
        requires
            self@.wf(),
        ensures
            body_fits(self@) ==> r@ == tx_wire(self@),
    {
        let mut out: Vec<u8> = Vec::new();
        out.push(TX_TYPE);
        self.rlp_append(&mut out);
        proof {
            assert(body_fits(self@) ==> out@ =~= tx_wire(self@));
        }
        out
    }

    /// The same transaction with its hash recomputed from its wire bytes.
    pub fn hash(self) -> (r: UnverifiedTransaction)
        requires
            self@.wf(),
        ensures
            r@ == (UnverifiedView { hash: r@.hash, ..self@ }),
            r@.wf(),
            body_fits(self@) ==> r@ == sealed(self@),
    {
        let w = self.rlp_bytes();
        let h = keccak256(w.as_slice());
        UnverifiedTransaction { hash: H256 { bytes: h }, ..self }
    }

    /// Decodes a framed field list (the bytes after the discriminator). The
    /// hash is always computed here, never read from the input.
    ///
    /// Decoding the field list of any well-formed transaction gives that
    /// transaction back, signed or not, access list in order, with its hash
    /// recomputed. A framed list of neither 9 nor 12 items is refused with
    /// `WrongFieldCount`; an access-list entry that is a list of other than
    /// two items is refused with `BadAccessListEntry`, wherever it stands;
    /// `WrongFieldCount` comes from no other list. On success every field is
    /// read from the input item at its position.
    #[verifier::rlimit(60)]
    pub fn decode(body: &[u8]) -> (r: Result<UnverifiedTransaction, FormatError>)
        ensures
            r matches Ok(t) ==> t@.wf() && (body_fits(t@) ==> t@.hash == tx_hash(t@)),
            forall|v: UnverifiedView|
                v.wf() && body_fits(v) && #[trigger] tx_body(v) == body@ ==> r is Ok && r.unwrap()@
                    == sealed(v),
            forall|items: Seq<Seq<u8>>|
                #[trigger] rlp_list(items) == body@ && all_framed(items) && items.len() != 9
                    && items.len() != 12 ==> r == Err::<UnverifiedTransaction, FormatError>(
                    FormatError::WrongFieldCount,
                ),
            forall|v: UnverifiedView, bad: Seq<Seq<u8>>, rest: Seq<Seq<u8>>|
                v.wf() && all_framed(bad) && bad.len() != 2 && all_framed(rest) && #[trigger] rlp_list(
                    fields_with_bad_entry(v, bad, rest),
                ) == body@ ==> r == Err::<UnverifiedTransaction, FormatError>(
                    FormatError::BadAccessListEntry,
                ),
            r matches Err(FormatError::WrongFieldCount) ==> rlp_count_of(body@) != 9
                && rlp_count_of(body@) != 12,
            r matches Err(FormatError::WrongFieldCount) ==> forall|items: Seq<Seq<u8>>|
                #[trigger] rlp_list(items) == body@ && all_framed(items) ==> items.len() != 9
                    && items.len() != 12,
            r matches Ok(t) ==> decoded_from(body@, t@),
    {
        broadcast use lemma_tx_fields_framed, lemma_bad_fields_framed;

        let n = item_count(body)?;
        if n != 9 && n != 12 {
            return Err(FormatError::WrongFieldCount);
        }
        proof {
            lemma_pow256_8();
        }
        let chain_id = decode_int_field(item_at(body, 0)?.as_slice(), 8)?;
        let nonce = decode_u256_field(item_at(body, 1)?.as_slice())?;
        let max_priority_fee_per_gas = decode_u256_field(item_at(body, 2)?.as_slice())?;
        let gas_price = decode_u256_field(item_at(body, 3)?.as_slice())?;
        let gas_limit = decode_u256_field(item_at(body, 4)?.as_slice())?;
        let action = decode_action_field(item_at(body, 5)?.as_slice())?;
        let value = decode_u256_field(item_at(body, 6)?.as_slice())?;
        let data = decode_bytes_field(item_at(body, 7)?.as_slice())?;
        let al_item = item_at(body, 8)?;
        proof {
            assert forall|v: UnverifiedView|
                v.wf() && body_fits(v) && #[trigger] tx_body(v) == body@ implies list_target(
                al_item@,
                v.unsigned.access_list,
            ) by {
                assert(tx_fields(v)[8] == access_list_field(v.unsigned.access_list));
            }
        }
        proof {
            assert forall|v: UnverifiedView, bad: Seq<Seq<u8>>, rest: Seq<Seq<u8>>|
                v.wf() && all_framed(bad) && bad.len() != 2 && all_framed(rest) && #[trigger] rlp_list(
                    fields_with_bad_entry(v, bad, rest),
                ) == body@ implies bad_target(al_item@, v.unsigned.access_list, bad, rest) by {
                assert(fields_with_bad_entry(v, bad, rest)[8] == bad_entry_list(
                    v.unsigned.access_list,
                    bad,
                    rest,
                ));
            }
        }
        let access_list = match decode_access_list(al_item.as_slice()) {
            Ok(l) => l,
            Err(e) => {
                proof {
                    assert forall|v: UnverifiedView|
                        v.wf() && body_fits(v) && #[trigger] tx_body(v) == body@ implies false by {
                        assert(list_target(al_item@, v.unsigned.access_list));
                    }
                }
                return Err(e);
            },
        };
        proof {
            assert forall|v: UnverifiedView, bad: Seq<Seq<u8>>, rest: Seq<Seq<u8>>|
                v.wf() && all_framed(bad) && bad.len() != 2 && all_framed(rest) && #[trigger] rlp_list(
                    fields_with_bad_entry(v, bad, rest),
                ) == body@ implies false by {
                assert(bad_target(al_item@, v.unsigned.access_list, bad, rest));
            }
        }
        let signature = if n == 12 {
            let standard_v = decode_int_field(item_at(body, 9)?.as_slice(), 1)?;
            let r = decode_fixed_field(item_at(body, 10)?.as_slice(), 32)?;
            let s = decode_fixed_field(item_at(body, 11)?.as_slice(), 32)?;
            Some(
                SignatureComponents {
                    standard_v: standard_v as u8,
                    r: H256 { bytes: r },
                    s: H256 { bytes: s },
                },
            )
        } else {
            None
        };
        let unsigned = Transaction {
            nonce,
            max_priority_fee_per_gas,
            gas_price,
            gas_limit,
            action,
            value,
            data,
            access_list,
        };
        let t = UnverifiedTransaction { unsigned, signature, chain_id, hash: H256::zero() };
        proof {
            assert forall|v: UnverifiedView|
                v.wf() && body_fits(v) && #[trigger] tx_body(v) == body@ implies t@ == (UnverifiedView {
                hash: t@.hash,
                ..v
            }) by {
                assert(list_target(al_item@, v.unsigned.access_list));
                assert(t@.unsigned =~= v.unsigned);
                if n == 12 {
                    assert(v.signature is Some);
                } else {
                    assert(v.signature is None);
                }
            }
        }
        Ok(t.hash())
    }
}

impl SignedTransaction {
    /// Appends the three-item list: transaction, sender, optional public key.
    pub fn rlp_append(&self, out: &mut Vec<u8>)
        requires
            self@.wf(),
        ensures
            signed_fits(self@) ==> final(out)@ == old(out)@ + signed_body(self@),
    {
        let ghost v = self@;
        let mut tx: Vec<u8> = Vec::new();
        self.transaction.rlp_append(&mut tx);
        let sender = rlp_encode_string(self.sender.bytes.as_slice());
        let mut keys: Vec<Vec<u8>> = Vec::new();
        match &self.public {
            Some(p) => {
                keys.push(rlp_encode_string(p.bytes.as_slice()));
            },
            None => {},
        }
        let public = rlp_encode_list(&keys);
        let mut f: Vec<Vec<u8>> = Vec::new();
        f.push(tx);
        f.push(sender);
        f.push(public);
        proof {
            if signed_fits(v) {
                assert(tx@ =~= tx_body(v.transaction));
                match v.public {
                    Some(k) => {
                        assert(views(keys@) =~= seq![rlp_str(k)]);
                        lemma_concat_len(signed_fields(v), 2);
                        lemma_list_framed(seq![rlp_str(k)]);
                    },
                    None => {
                        assert(views(keys@) =~= Seq::<Seq<u8>>::empty());
                    },
                }
                assert(views(f@) =~= signed_fields(v));
            }
        }
        let b = rlp_encode_list(&f);
        append_bytes(out, &b);
    }

    /// The encoding of the transaction with its sender.
    pub fn rlp_bytes(&self) -> (r: Vec<u8>)
        requires
            self@.wf(),
        ensures
            signed_fits(self@) ==> r@ == signed_body(self@),
    {
        let mut out: Vec<u8> = Vec::new();
        self.rlp_append(&mut out);
        proof {
            assert(signed_fits(self@) ==> out@ =~= signed_body(self@));
        }
        out
    }

    /// Decodes a three-item list; the transaction's hash is recomputed.
    pub fn decode(b: &[u8]) -> (r: Result<SignedTransaction, FormatError>)
        ensures
            r matches Ok(t) ==> t@.wf() && (body_fits(t@.transaction) ==> t@.transaction.hash
                == tx_hash(t@.transaction)),
            r matches Ok(t) ==> rlp_count_of(b@) == 3 && decoded_from(
                rlp_item_of(b@, 0),
                t@.transaction,
            ) && t@.sender == item_payload(b@, 1),
            forall|v: SignedView|
                v.wf() && signed_fits(v) && #[trigger] signed_body(v) == b@ ==> r is Ok
                    && r.unwrap()@ == (SignedView { transaction: sealed(v.transaction), ..v }),
            forall|items: Seq<Seq<u8>>|
                #[trigger] rlp_list(items) == b@ && all_framed(items) && items.len() != 3 ==> r
                    == Err::<SignedTransaction, FormatError>(FormatError::WrongFieldCount),
    {
        let n = item_count(b)?;
        proof {
            assert forall|v: SignedView| v.wf() && signed_fits(v) && #[trigger] signed_body(v)
                == b@ implies n == 3 by {
                lemma_signed_framed(v);
            }
        }
        if n != 3 {
            return Err(FormatError::WrongFieldCount);
        }
        let tx_item = item_at(b, 0)?;
        let sender_item = item_at(b, 1)?;
        let public_item = item_at(b, 2)?;
        proof {
            assert forall|v: SignedView| v.wf() && signed_fits(v) && #[trigger] signed_body(v)
                == b@ implies tx_item@ == tx_body(v.transaction) && sender_item@ == rlp_str(v.sender)
                && public_item@ == public_field(v.public) by {
                lemma_signed_framed(v);
                assert(signed_fields(v)[0] == tx_body(v.transaction));
            }
        }
        let transaction = UnverifiedTransaction::decode(tx_item.as_slice())?;
        let sender = decode_fixed_field(sender_item.as_slice(), 20)?;
        let m = item_count(public_item.as_slice())?;
        let public = if m == 0 {
            None
        } else if m == 1 {
            let k = decode_fixed_field(item_at(public_item.as_slice(), 0)?.as_slice(), 64)?;
            Some(Public { bytes: k })
        } else {
            proof {
                assert forall|v: SignedView| v.wf() && signed_fits(v) && #[trigger] signed_body(v)
                    == b@ implies false by {
                    match v.public {
                        Some(k) => {
                            lemma_str_framed(k);
                            assert(all_framed(seq![rlp_str(k)]));
                        },
                        None => {},
                    }
                }
            }
            return Err(FormatError::WrongFieldCount);
        };
        let out = SignedTransaction { transaction, sender: H160 { bytes: sender }, public };
        proof {
            assert forall|v: SignedView| v.wf() && signed_fits(v) && #[trigger] signed_body(v)
                == b@ implies out@ == (SignedView { transaction: sealed(v.transaction), ..v }) by {
                match v.public {
                    Some(k) => {
                        lemma_str_framed(k);
                        assert(all_framed(seq![rlp_str(k)]));
                    },
                    None => {},
                }
            }
        }
        Ok(out)
    }
}

/// Decodes wire bytes: the discriminator, then the framed field list.
pub fn decode_wire(bytes: &[u8]) -> (r: Result<UnverifiedTransaction, FormatError>)
    ensures
        (bytes@.len() == 0 || bytes@[0] != TX_TYPE) ==> r == Err::<UnverifiedTransaction, FormatError>(
            FormatError::WrongType,
        ),
        r matches Ok(t) ==> t@.wf() && (body_fits(t@) ==> t@.hash == tx_hash(t@)),
        r matches Ok(t) ==> decoded_from(bytes@.subrange(1, bytes@.len() as int), t@),
        forall|v: UnverifiedView|
            v.wf() && body_fits(v) && #[trigger] tx_wire(v) == bytes@ ==> r is Ok && r.unwrap()@
                == sealed(v),
{
    if bytes.len() == 0 || bytes[0] != TX_TYPE {
        return Err(FormatError::WrongType);
    }
    let body = vstd::slice::slice_subrange(bytes, 1, bytes.len());
    proof {
        assert forall|v: UnverifiedView|
            v.wf() && body_fits(v) && #[trigger] tx_wire(v) == bytes@ implies tx_body(v) == body@ by {
            assert(tx_body(v) =~= tx_wire(v).subrange(1, tx_wire(v).len() as int));
        }
    }
    UnverifiedTransaction::decode(body)
}

} // verus!
