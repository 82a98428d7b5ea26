//! Recursive-length-prefix framing: the byte layout of strings and lists, and
//! the calls into the `rlp` crate that produce and read it.
use vstd::prelude::*;

use tiny_keccak::Hasher;

verus! {

/// Minimal big-endian bytes of `n` (empty for zero).
pub open spec fn be_bytes(n: nat) -> Seq<u8>
    decreases n,
{
    if n == 0 {
        Seq::empty()
    } else {
        be_bytes(n / 256).push((n % 256) as u8)
    }
}

/// Big-endian value of a byte sequence.
pub open spec fn be_value(s: Seq<u8>) -> nat
    decreases s.len(),
{
    if s.len() == 0 {
        0
    } else {
        be_value(s.drop_last()) * 256 + s.last() as nat
    }
}

/// No leading zero byte.
pub open spec fn no_leading_zero(s: Seq<u8>) -> bool {
    s.len() == 0 || s[0] != 0
}

/// Header of a string (`offset` 0x80) or list (`offset` 0xc0) whose payload has `len` bytes.
pub open spec fn rlp_header(offset: u8, len: nat) -> Seq<u8> {
    if len <= 55 {
        seq![(offset + len) as u8]
    } else {
        seq![(offset + 55 + be_bytes(len).len()) as u8] + be_bytes(len)
    }
}

/// Framing of a byte string.
pub open spec fn rlp_str(p: Seq<u8>) -> Seq<u8> {
    if p.len() == 1 && p[0] < 0x80 {
        p
    } else {
        rlp_header(0x80, p.len()) + p
    }
}

/// Concatenation of byte sequences, in order.
pub open spec fn concat(items: Seq<Seq<u8>>) -> Seq<u8>
    decreases items.len(),
{
    if items.len() == 0 {
        Seq::empty()
    } else {
        concat(items.drop_last()) + items.last()
    }
}

/// Framing of a list whose items are already framed.
pub open spec fn rlp_list(items: Seq<Seq<u8>>) -> Seq<u8> {
    rlp_header(0xc0, concat(items).len()) + concat(items)
}

/// `x` is one complete framed item: a string or a list.
pub open spec fn framed(x: Seq<u8>) -> bool {
    (exists|p: Seq<u8>| #[trigger] rlp_str(p) == x) || (exists|q: Seq<Seq<u8>>| #[trigger] rlp_list(q) == x)
}

pub open spec fn all_framed(items: Seq<Seq<u8>>) -> bool {
    forall|i: int| 0 <= i < items.len() ==> #[trigger] framed(items[i])
}

pub open spec fn views(v: Seq<Vec<u8>>) -> Seq<Seq<u8>> {
    v.map_values(|x: Vec<u8>| x@)
}

/// Largest payload that the encoder writes a length for.
pub open spec fn encodable_len(n: nat) -> bool {
    n <= u32::MAX
}

/// Number of items that `rlp::Rlp::item_count` reports for a byte sequence.
pub uninterp spec fn rlp_count_of(b: Seq<u8>) -> nat;

/// Bytes of item `i` that `rlp::Rlp::at` reports for a byte sequence.
pub uninterp spec fn rlp_item_of(b: Seq<u8>, i: nat) -> Seq<u8>;

/// Payload that `rlp::decode::<Vec<u8>>` reports for a byte sequence.
pub uninterp spec fn rlp_payload_of(b: Seq<u8>) -> Seq<u8>;

/// Keccak-256 digest of a byte sequence.
pub uninterp spec fn keccak_of(data: Seq<u8>) -> Seq<u8>;

#[verifier::external_type_specification]
#[verifier::external_body]
pub struct ExDecoderError(::rlp::DecoderError);

/// Relies on `rlp::encode` for a byte slice: the string framing of the bytes.
/// The encoder writes lengths as 32-bit numbers: longer payloads are not framed.
#[verifier::external_body]
pub(crate) fn rlp_encode_string(p: &[u8]) -> (r: Vec<u8>)
    ensures
        encodable_len(p@.len()) ==> r@ == rlp_str(p@),
{
    ::rlp::encode(&p).to_vec()
}

/// Relies on `rlp::RlpStream` (`new_list`, `append_raw`, `out`): a list
/// header for `n` items whose framings, concatenated, are `payload`.
#[verifier::external_body]
fn rlp_frame_list(payload: &[u8], n: usize) -> (r: Vec<u8>)
    requires
        n == 0 ==> payload@.len() == 0,
    ensures
        encodable_len(payload@.len()) ==> r@ == rlp_header(0xc0, payload@.len()) + payload@,
{
    let mut s = ::rlp::RlpStream::new_list(n);
    s.append_raw(payload, n);
    s.out().to_vec()
}

/// A list of already framed items.
pub fn rlp_encode_list(items: &Vec<Vec<u8>>) -> (r: Vec<u8>)
    ensures
        encodable_len(concat(views(items@)).len()) ==> r@ == rlp_list(views(items@)),
{
    let mut payload: Vec<u8> = Vec::new();
    let mut k: usize = 0;
    while k < items.len()
        invariant
            k <= items@.len(),
            payload@ == concat(views(items@.subrange(0, k as int))),
        decreases items@.len() - k,
    {
        let item = &items[k];
        let ghost before = payload@;
        let mut i: usize = 0;
        while i < item.len()
            invariant
                i <= item@.len(),
                payload@ == before + item@.subrange(0, i as int),
            decreases item@.len() - i,
        {
            payload.push(item[i]);
            i = i + 1;
            proof {
                assert(payload@ =~= before + item@.subrange(0, i as int));
            }
        }
        proof {
            let next = items@.subrange(0, k + 1);
            assert(views(next).drop_last() =~= views(items@.subrange(0, k as int)));
            assert(views(next).last() == item@);
            assert(payload@ =~= concat(views(next)));
        }
        k = k + 1;
    }
    proof {
        assert(items@.subrange(0, k as int) =~= items@);
        if k == 0 {
            assert(payload@ =~= Seq::<u8>::empty());
        }
    }
    rlp_frame_list(payload.as_slice(), items.len())
}

/// Relies on `rlp::Rlp::item_count`: the number of items of a framed list.
/// The count depends on the bytes alone.
#[verifier::external_body]
pub(crate) fn rlp_item_count(b: &[u8]) -> (r: Result<usize, ::rlp::DecoderError>)
    ensures
        r is Ok ==> r.unwrap() == rlp_count_of(b@),
        forall|items: Seq<Seq<u8>>|
            #[trigger] rlp_list(items) == b@ && all_framed(items) ==> r is Ok && r.unwrap()
                == items.len(),
{
    ::rlp::Rlp::new(b).item_count()
}

/// Relies on `rlp::Rlp::at`: the bytes of the item at index `i` of a framed
/// list. They depend on the bytes and the index alone.
#[verifier::external_body]
pub(crate) fn rlp_item_at(b: &[u8], i: usize) -> (r: Result<Vec<u8>, ::rlp::DecoderError>)
    ensures
        r is Ok ==> r.unwrap()@ == rlp_item_of(b@, i as nat),
        forall|items: Seq<Seq<u8>>|
            #[trigger] rlp_list(items) == b@ && all_framed(items) && i < items.len() ==> r is Ok
                && r.unwrap()@ == items[i as int],
{
    ::rlp::Rlp::new(b).at(i).map(|x| x.as_raw().to_vec())
}

/// Relies on `rlp::decode` for `Vec<u8>`: the payload of a framed string; a
/// list is refused. The payload depends on the bytes alone.
#[verifier::external_body]
pub(crate) fn rlp_string_payload(b: &[u8]) -> (r: Result<Vec<u8>, ::rlp::DecoderError>)
    ensures
        r is Ok ==> r.unwrap()@ == rlp_payload_of(b@),
        forall|p: Seq<u8>| #[trigger] rlp_str(p) == b@ ==> r is Ok && r.unwrap()@ == p,
        forall|q: Seq<Seq<u8>>| #[trigger] rlp_list(q) == b@ ==> r is Err,
{
    ::rlp::decode::<Vec<u8>>(b)
}

/// Relies on `tiny_keccak::Keccak::v256`: the 32-byte Keccak-256 digest.
#[verifier::external_body]
pub(crate) fn keccak256(data: &[u8]) -> (r: Vec<u8>)
    ensures
        r@ == keccak_of(data@),
        r@.len() == 32,
{
    let mut k = tiny_keccak::Keccak::v256();
    k.update(data);
    let mut out = [0u8; 32];
    k.finalize(&mut out);
    out.to_vec()
}

} // verus!
