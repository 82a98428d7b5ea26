//! Fixed-width hashes and integers, and the signed transaction values that the
//! codec reads and writes.
use vstd::prelude::*;

use crate::rlp_frame::be_bytes;
use crate::scalar::{encode_u64, lemma_be_bytes, lemma_pow256_8, left_pad, pad_canonical};

verus! {

/// A 20-byte account address.
#[derive(Clone, Debug, PartialEq, Eq, Hash, Default)]
pub struct H160 {
    pub bytes: Vec<u8>,
}

/// A 32-byte hash, storage slot or signature component.
#[derive(Clone, Debug, PartialEq, Eq, Hash, Default)]
pub struct H256 {
    pub bytes: Vec<u8>,
}

/// A 64-byte public key.
#[derive(Clone, Debug, PartialEq, Eq, Hash, Default)]
pub struct Public {
    pub bytes: Vec<u8>,
}

/// A 256-bit unsigned integer, as 32 big-endian bytes.
#[derive(Clone, Debug, PartialEq, Eq, Hash, Default)]
pub struct U256 {
    pub bytes: Vec<u8>,
}

impl View for H160 {
    type V = Seq<u8>;

    open spec fn view(&self) -> Seq<u8> {
        self.bytes@
    }
}

impl View for H256 {
    type V = Seq<u8>;

    open spec fn view(&self) -> Seq<u8> {
        self.bytes@
    }
}

impl View for Public {
    type V = Seq<u8>;

    open spec fn view(&self) -> Seq<u8> {
        self.bytes@
    }
}

impl View for U256 {
    type V = Seq<u8>;

    open spec fn view(&self) -> Seq<u8> {
        self.bytes@
    }
}

/// `n` zero bytes.
pub fn zero_bytes(n: usize) -> (r: Vec<u8>)
    ensures
        r@ == Seq::new(n as nat, |i: int| 0u8),
{
    let mut r: Vec<u8> = Vec::new();
    while r.len() < n
        invariant
            r@.len() <= n,
            forall|j: int| 0 <= j < r@.len() ==> r@[j] == 0u8,
        decreases n - r@.len(),
    {
        r.push(0u8);
    }
    proof {
        assert(r@ =~= Seq::new(n as nat, |i: int| 0u8));
    }
    r
}

impl H160 {
    pub open spec fn wf(&self) -> bool {
        self@.len() == 20
    }

    pub fn zero() -> (r: H160)
        ensures
            r@ == Seq::new(20, |i: int| 0u8),
            r.wf(),
    {
        H160 { bytes: zero_bytes(20) }
    }
}

impl H256 {
    pub open spec fn wf(&self) -> bool {
        self@.len() == 32
    }

    pub fn zero() -> (r: H256)
        ensures
            r@ == Seq::new(32, |i: int| 0u8),
            r.wf(),
    {
        H256 { bytes: zero_bytes(32) }
    }
}

impl Public {
    pub open spec fn wf(&self) -> bool {
        self@.len() == 64
    }
}

impl U256 {
    pub open spec fn wf(&self) -> bool {
        self@.len() == 32
    }

    /// The same 32 bytes as a hash.
    pub fn into_hash(self) -> (r: H256)
        ensures
            r@ == self@,
    {
        H256 { bytes: self.bytes }
    }

    /// `n` as 32 big-endian bytes.
    pub fn from_u64(n: u64) -> (r: U256)
        ensures
            r@ == left_pad(be_bytes(n as nat), 32),
            r.wf(),
    {
        let p = encode_u64(n);
        proof {
            lemma_pow256_8();
            lemma_be_bytes(n as nat, 8);
        }
        match pad_canonical(p.as_slice(), 32) {
            Ok(b) => U256 { bytes: b },
            Err(_) => U256 { bytes: zero_bytes(32) },
        }
    }
}

/// Errors of the binary transaction codec.
#[derive(Debug, PartialEq, Eq)]
pub enum FormatError {
    /// The first byte is not the typed-transaction discriminator.
    WrongType,
    /// The transaction list has neither 9 nor 12 items.
    WrongFieldCount,
    /// An access-list entry is not a two-item list.
    BadAccessListEntry,
    /// An integer is longer than its type or has a leading zero byte.
    BadInteger,
    /// A fixed-width value has the wrong number of bytes.
    BadLength,
    /// The framing itself is malformed.
    Rlp(::rlp::DecoderError),
}

/// What a transaction does: call an address, or create a contract.
#[derive(Clone, Debug, PartialEq, Eq)]
pub enum TransactionAction {
    Call(H160),
    Create,
}

/// One access-list entry: an address and the storage slots it touches.
#[derive(Clone, Debug, PartialEq, Eq)]
pub struct AccessListItem {
    pub address: H160,
    pub slots: Vec<H256>,
}

/// The unsigned part of a transaction.
#[derive(Clone, Debug, PartialEq, Eq)]
pub struct Transaction {
    pub nonce: U256,
    pub max_priority_fee_per_gas: U256,
    pub gas_price: U256,
    pub gas_limit: U256,
    pub action: TransactionAction,
    pub value: U256,
    pub data: Vec<u8>,
    pub access_list: Vec<AccessListItem>,
}

/// Recovery id and the two signature halves.
#[derive(Clone, Debug, PartialEq, Eq)]
pub struct SignatureComponents {
    pub standard_v: u8,
    pub r: H256,
    pub s: H256,
}

/// A transaction as it comes off the wire, with its locally computed hash.
#[derive(Clone, Debug, PartialEq, Eq)]
pub struct UnverifiedTransaction {
    pub unsigned: Transaction,
    pub signature: Option<SignatureComponents>,
    pub chain_id: u64,
    pub hash: H256,
}

/// A transaction together with the sender recovered from its signature.
#[derive(Clone, Debug, PartialEq, Eq)]
pub struct SignedTransaction {
    pub transaction: UnverifiedTransaction,
    pub sender: H160,
    pub public: Option<Public>,
}

/// Mathematical view of an access-list entry.
pub struct AccessListItemView {
    pub address: Seq<u8>,
    pub slots: Seq<Seq<u8>>,
}

/// Mathematical view of an unsigned transaction; `action` is `None` for a
/// contract creation.
pub struct TransactionView {
    pub nonce: Seq<u8>,
    pub max_priority_fee_per_gas: Seq<u8>,
    pub gas_price: Seq<u8>,
    pub gas_limit: Seq<u8>,
    pub action: Option<Seq<u8>>,
    pub value: Seq<u8>,
    pub data: Seq<u8>,
    pub access_list: Seq<AccessListItemView>,
}

pub struct SignatureView {
    pub standard_v: u8,
    pub r: Seq<u8>,
    pub s: Seq<u8>,
}

pub struct UnverifiedView {
    pub unsigned: TransactionView,
    pub signature: Option<SignatureView>,
    pub chain_id: u64,
    pub hash: Seq<u8>,
}

pub struct SignedView {
    pub transaction: UnverifiedView,
    pub sender: Seq<u8>,
    pub public: Option<Seq<u8>>,
}

pub open spec fn hash_views(v: Seq<H256>) -> Seq<Seq<u8>> {
    v.map_values(|h: H256| h@)
}

pub open spec fn entry_views(v: Seq<AccessListItem>) -> Seq<AccessListItemView> {
    v.map_values(|e: AccessListItem| e@)
}

impl View for AccessListItem {
    type V = AccessListItemView;

    open spec fn view(&self) -> AccessListItemView {
        AccessListItemView { address: self.address@, slots: hash_views(self.slots@) }
    }
}

impl View for TransactionAction {
    type V = Option<Seq<u8>>;

    open spec fn view(&self) -> Option<Seq<u8>> {
        match self {
            TransactionAction::Call(a) => Some(a@),
            TransactionAction::Create => None,
        }
    }
}

impl View for Transaction {
    type V = TransactionView;

    open spec fn view(&self) -> TransactionView {
        TransactionView {
            nonce: self.nonce@,
            max_priority_fee_per_gas: self.max_priority_fee_per_gas@,
            gas_price: self.gas_price@,
            gas_limit: self.gas_limit@,
            action: self.action@,
            value: self.value@,
            data: self.data@,
            access_list: entry_views(self.access_list@),
        }
    }
}

impl View for SignatureComponents {
    type V = SignatureView;

    open spec fn view(&self) -> SignatureView {
        SignatureView { standard_v: self.standard_v, r: self.r@, s: self.s@ }
    }
}

impl View for UnverifiedTransaction {
    type V = UnverifiedView;

    open spec fn view(&self) -> UnverifiedView {
        UnverifiedView {
            unsigned: self.unsigned@,
            signature: match self.signature {
                Some(s) => Some(s@),
                None => None,
            },
            chain_id: self.chain_id,
            hash: self.hash@,
        }
    }
}

impl View for SignedTransaction {
    type V = SignedView;

    open spec fn view(&self) -> SignedView {
        SignedView {
            transaction: self.transaction@,
            sender: self.sender@,
            public: match self.public {
                Some(p) => Some(p@),
                None => None,
            },
        }
    }
}

impl AccessListItemView {
    pub open spec fn wf(self) -> bool {
        &&& self.address.len() == 20
        &&& forall|k: int| 0 <= k < self.slots.len() ==> (#[trigger] self.slots[k]).len() == 32
    }
}

impl TransactionView {
    /// Every fixed-width field has its width.
    pub open spec fn wf(self) -> bool {
        &&& self.nonce.len() == 32
        &&& self.max_priority_fee_per_gas.len() == 32
        &&& self.gas_price.len() == 32
        &&& self.gas_limit.len() == 32
        &&& self.value.len() == 32
        &&& (self.action matches Some(a) ==> a.len() == 20)
        &&& forall|k: int| 0 <= k < self.access_list.len() ==> (#[trigger] self.access_list[k]).wf()
    }
}

impl SignatureView {
    pub open spec fn wf(self) -> bool {
        self.r.len() == 32 && self.s.len() == 32
    }
}

impl UnverifiedView {
    pub open spec fn wf(self) -> bool {
        &&& self.unsigned.wf()
        &&& (self.signature matches Some(s) ==> s.wf())
        &&& self.hash.len() == 32
    }
}

impl SignedView {
    pub open spec fn wf(self) -> bool {
        &&& self.transaction.wf()
        &&& self.sender.len() == 20
        &&& (self.public matches Some(p) ==> p.len() == 64)
    }
}

} // verus!
