//! Ethereum-shaped response values, projected from the chain's own receipts,
//! logs and transactions.
use vstd::prelude::*;

use crate::block::BlockId;
use crate::codec::{body_fits, tx_wire};
use crate::rlp_frame::be_bytes;
use crate::scalar::left_pad;
use crate::types::{
    hash_views, AccessListItem, H160, H256, Public, SignedTransaction, TransactionAction, U256,
};

verus! {

/// A 256-byte log bloom.
#[derive(Clone, Debug, PartialEq, Eq)]
pub struct Bloom {
    pub bytes: Vec<u8>,
}

/// Bytes that responses render as a `0x`-prefixed hex string.
#[derive(Clone, Debug, PartialEq, Eq)]
pub struct Hex {
    pub bytes: Vec<u8>,
}

/// A log entry as the chain stores it.
#[derive(Clone, Debug, PartialEq, Eq)]
pub struct Log {
    pub address: H160,
    pub topics: Vec<H256>,
    pub data: Vec<u8>,
}

/// A receipt as the chain stores it.
#[derive(Clone, Debug, PartialEq, Eq)]
pub struct Receipt {
    pub tx_hash: H256,
    pub block_number: u64,
    pub block_hash: H256,
    pub tx_index: u32,
    pub state_root: H256,
    pub used_gas: U256,
    pub logs_bloom: Bloom,
    pub logs: Vec<Log>,
    pub code_address: Option<H256>,
    pub sender: H160,
    /// Whether execution ended in success.
    pub succeeded: bool,
    pub removed: bool,
}

/// A block's transaction: only its hash, or the whole transaction.
#[derive(Clone, Debug, PartialEq, Eq)]
pub enum RichTransactionOrHash {
    Hash(H256),
    Rich(SignedTransaction),
}

impl RichTransactionOrHash {
    pub fn get_hash(&self) -> (r: H256)
        ensures
            r@ == (match self {
                RichTransactionOrHash::Hash(h) => h@,
                RichTransactionOrHash::Rich(stx) => stx.transaction.hash@,
            }),
    {
        match self {
            RichTransactionOrHash::Hash(h) => copy_hash(h),
            RichTransactionOrHash::Rich(stx) => copy_hash(&stx.transaction.hash),
        }
    }
}

fn copy_hash(h: &H256) -> (r: H256)
    ensures
        r@ == h@,
{
    let b = h.bytes.clone();
    proof {
        assert(b@ =~= h.bytes@);
    }
    H256 { bytes: b }
}

/// The address held in the low 20 bytes of a 32-byte value.
pub fn address_of(h: &H256) -> (r: H160)
    requires
        h@.len() == 32,
    ensures
        r@ == h@.subrange(12, 32),
{
    let mut b: Vec<u8> = Vec::new();
    let mut i: usize = 12;
    while i < 32
        invariant
            h@.len() == 32,
            12 <= i <= 32,
            b@ == h@.subrange(12, i as int),
        decreases 32 - i,
    {
        b.push(h.bytes[i]);
        i = i + 1;
        proof {
            assert(b@ =~= h@.subrange(12, i as int));
        }
    }
    H160 { bytes: b }
}

pub open spec fn opt_address_of(h: Option<H256>) -> Option<Seq<u8>> {
    match h {
        Some(x) => Some(x@.subrange(12, 32)),
        None => None,
    }
}

pub open spec fn opt_view160(a: Option<H160>) -> Option<Seq<u8>> {
    match a {
        Some(x) => Some(x@),
        None => None,
    }
}

pub open spec fn opt_view256(a: Option<U256>) -> Option<Seq<u8>> {
    match a {
        Some(x) => Some(x@),
        None => None,
    }
}

/// `n` as a 256-bit integer.
pub open spec fn u256_of(n: nat) -> Seq<u8> {
    left_pad(be_bytes(n), 32)
}

pub open spec fn receipt_wf(r: Receipt) -> bool {
    match r.code_address {
        Some(a) => a@.len() == 32,
        None => true,
    }
}

fn code_address(a: &Option<H256>) -> (r: Option<H160>)
    requires
        a matches Some(x) ==> x@.len() == 32,
    ensures
        opt_view160(r) == opt_address_of(*a),
{
    match a {
        Some(x) => Some(address_of(x)),
        None => None,
    }
}

/// The recipient of a call, none for a contract creation.
fn recipient(a: &TransactionAction) -> (r: Option<H160>)
    ensures
        opt_view160(r) == a@,
{
    match a {
        TransactionAction::Call(x) => Some(H160 { bytes: copy_bytes(&x.bytes) }),
        TransactionAction::Create => None,
    }
}

fn copy_bytes(b: &Vec<u8>) -> (r: Vec<u8>)
    ensures
        r@ == b@,
{
    let r = b.clone();
    proof {
        assert(r@ =~= b@);
    }
    r
}

/// A transaction as `eth_getTransactionByHash` returns it.
#[derive(Clone, Debug, PartialEq, Eq)]
pub struct Web3Transaction {
    pub block_number: U256,
    pub block_hash: H256,
    pub from: H160,
    pub contract_address: Option<H160>,
    pub cumulative_gas_used: U256,
    pub effective_gas_price: U256,
    pub gas: U256,
    pub creates: Option<H160>,
    pub raw: Hex,
    pub public_key: Option<Public>,
    pub gas_price: U256,
    pub max_fee_per_gas: U256,
    pub max_priority_fee_per_gas: U256,
    pub hash: H256,
    pub input: Hex,
    pub nonece: U256,
    pub to: Option<H160>,
    pub transaction_index: Option<U256>,
    pub value: U256,
    pub type_: Option<u64>,
    pub access_list: Option<Vec<AccessListItem>>,
    pub chain_id: Option<U256>,
    pub standard_v: Option<U256>,
    pub r: U256,
    pub s: U256,
}

/// Fixed maximum fee reported for every transaction.
pub const MAX_FEE_PER_GAS: u64 = 1337;

/// Type number of the typed transactions this chain carries.
pub const TRANSACTION_TYPE: u64 = 2;

impl Web3Transaction {
    /// Projects a receipt and its transaction into the response shape.
    pub fn create(receipt: Receipt, stx: SignedTransaction) -> (r: Web3Transaction)
        requires
            receipt_wf(receipt),
            stx@.wf(),
        ensures
            r.block_number@ == u256_of(receipt.block_number as nat),
            r.block_hash@ == receipt.block_hash@,
            r.from@ == receipt.sender@,
            opt_view160(r.contract_address) == opt_address_of(receipt.code_address),
            opt_view160(r.creates) == opt_address_of(receipt.code_address),
            r.cumulative_gas_used@ == receipt.used_gas@,
            r.effective_gas_price@ == receipt.used_gas@,
            r.gas@ == receipt.used_gas@,
            body_fits(stx@.transaction) ==> r.raw.bytes@ == tx_wire(stx@.transaction),
            r.public_key == stx.public,
            r.gas_price@ == stx.transaction.unsigned.gas_price@,
            r.max_fee_per_gas@ == u256_of(MAX_FEE_PER_GAS as nat),
            r.max_priority_fee_per_gas@ == stx.transaction.unsigned.max_priority_fee_per_gas@,
            r.hash@ == receipt.tx_hash@,
            r.input.bytes@ == stx.transaction.unsigned.data@,
            r.nonece@ == stx.transaction.unsigned.nonce@,
            opt_view160(r.to) == stx.transaction.unsigned.action@,
            opt_view256(r.transaction_index) == Some(u256_of(receipt.tx_index as nat)),
            r.value@ == stx.transaction.unsigned.value@,
            r.type_ == Some(TRANSACTION_TYPE),
            r.access_list == Some(stx.transaction.unsigned.access_list),
            opt_view256(r.chain_id) == Some(u256_of(stx.transaction.chain_id as nat)),
            match stx.transaction.signature {
                Some(sc) => opt_view256(r.standard_v) == Some(u256_of(sc.standard_v as nat))
                    && r.r@ == sc.r@ && r.s@ == sc.s@,
                None => opt_view256(r.standard_v) == Some(u256_of(0)) && r.r@ == u256_of(0)
                    && r.s@ == u256_of(0),
            },
    {
        let raw = stx.transaction.rlp_bytes();
        let contract_address = code_address(&receipt.code_address);
        let creates = code_address(&receipt.code_address);
        let to = recipient(&stx.transaction.unsigned.action);
        let used = &receipt.used_gas;
        let (standard_v, r, s) = match &stx.transaction.signature {
            Some(sc) => (
                U256::from_u64(sc.standard_v as u64),
                U256 { bytes: copy_bytes(&sc.r.bytes) },
                U256 { bytes: copy_bytes(&sc.s.bytes) },
            ),
            None => (U256::from_u64(0), U256::from_u64(0), U256::from_u64(0)),
        };
        let gas_price = U256 { bytes: copy_bytes(&stx.transaction.unsigned.gas_price.bytes) };
        let max_priority_fee_per_gas = U256 {
            bytes: copy_bytes(&stx.transaction.unsigned.max_priority_fee_per_gas.bytes),
        };
        let nonece = U256 { bytes: copy_bytes(&stx.transaction.unsigned.nonce.bytes) };
        let chain_id = U256::from_u64(stx.transaction.chain_id);
        let t = stx.transaction;
        let unsigned = t.unsigned;
        Web3Transaction {
            block_number: U256::from_u64(receipt.block_number),
            block_hash: receipt.block_hash,
            from: receipt.sender,
            contract_address,
            cumulative_gas_used: U256 { bytes: copy_bytes(&used.bytes) },
            effective_gas_price: U256 { bytes: copy_bytes(&used.bytes) },
            creates,
            raw: Hex { bytes: raw },
            public_key: stx.public,
            gas: U256 { bytes: copy_bytes(&used.bytes) },
            gas_price,
            max_fee_per_gas: U256::from_u64(MAX_FEE_PER_GAS),
            max_priority_fee_per_gas,
            hash: receipt.tx_hash,
            to,
            input: Hex { bytes: unsigned.data },
            nonece,
            transaction_index: Some(U256::from_u64(receipt.tx_index as u64)),
            value: unsigned.value,
            type_: Some(TRANSACTION_TYPE),
            access_list: Some(unsigned.access_list),
            chain_id: Some(chain_id),
            standard_v: Some(standard_v),
            r,
            s,
        }
    }
}

/// A log inside a receipt response.
#[derive(Clone, Debug, PartialEq, Eq)]
pub struct Web3ReceiptLog {
    pub address: H160,
    pub topics: Vec<H256>,
    pub data: Hex,
    pub block_number: U256,
    pub transaction_hash: H256,
    pub transaction_index: Option<U256>,
    pub block_hash: H256,
    pub log_index: U256,
    pub removed: bool,
}

/// A receipt as `eth_getTransactionReceipt` returns it.
#[derive(Clone, Debug, PartialEq, Eq)]
pub struct Web3Receipt {
    pub block_number: U256,
    pub block_hash: H256,
    pub contract_address: Option<H160>,
    pub cumulative_gas_used: U256,
    pub effective_gas_price: U256,
    pub from: H160,
    pub gas_used: U256,
    pub logs: Vec<Web3ReceiptLog>,
    pub logs_bloom: Bloom,
    pub state_root: H256,
    pub status: U256,
    pub to: Option<H160>,
    pub transaction_hash: H256,
    pub transaction_index: Option<U256>,
    pub transaction_type: Option<u64>,
}

/// The response log for a stored log of a receipt.
pub open spec fn receipt_log_matches(w: Web3ReceiptLog, l: Log, receipt: Receipt) -> bool {
    &&& w.address == l.address
    &&& w.topics == l.topics
    &&& w.data.bytes == l.data
    &&& w.block_number@ == u256_of(receipt.block_number as nat)
    &&& w.transaction_hash@ == receipt.tx_hash@
    &&& opt_view256(w.transaction_index) == Some(u256_of(receipt.tx_index as nat))
    &&& w.block_hash@ == receipt.block_hash@
    &&& w.log_index@ == u256_of(0)
    &&& !w.removed
}

impl Web3Receipt {
    /// Projects a receipt and its transaction into the response shape.
    pub fn new(receipt: Receipt, stx: SignedTransaction) -> (r: Web3Receipt)
        requires
            receipt_wf(receipt),
        ensures
            r.block_number@ == u256_of(receipt.block_number as nat),
            r.block_hash@ == receipt.block_hash@,
            opt_view160(r.contract_address) == opt_address_of(receipt.code_address),
            r.cumulative_gas_used@ == receipt.used_gas@,
            r.effective_gas_price@ == receipt.used_gas@,
            r.from@ == receipt.sender@,
            r.gas_used@ == receipt.used_gas@,
            r.logs@.len() == receipt.logs@.len(),
            forall|i: int|
                0 <= i < r.logs@.len() ==> receipt_log_matches(
                    #[trigger] r.logs@[i],
                    receipt.logs@[i],
                    receipt,
                ),
            r.logs_bloom == receipt.logs_bloom,
            r.state_root@ == receipt.state_root@,
            r.status@ == u256_of(if receipt.succeeded {
                1
            } else {
                0
            }),
            opt_view160(r.to) == stx.transaction.unsigned.action@,
            r.transaction_hash@ == receipt.tx_hash@,
            opt_view256(r.transaction_index) == Some(u256_of(receipt.tx_index as nat)),
            r.transaction_type == Some(TRANSACTION_TYPE),
    {
        let contract_address = code_address(&receipt.code_address);
        let to = recipient(&stx.transaction.unsigned.action);
        let status = U256::from_u64(
            if receipt.succeeded {
                1
            } else {
                0
            },
        );
        let ghost stored = receipt.logs@;
        assert(stored.len() == receipt.logs.len());
        let mut logs: Vec<Web3ReceiptLog> = Vec::new();
        let mut source = receipt.logs;
        let mut rest: Vec<Log> = Vec::new();
        while source.len() > 0
            invariant
                source@ + rest@.reverse() == stored,
            decreases source@.len(),
        {
            let item = source.pop().unwrap();
            rest.push(item);
            proof {
                assert(source@ + rest@.reverse() =~= stored);
            }
        }
        let mut k: usize = 0;
        while rest.len() > 0
            invariant
                rest@.reverse() == stored.subrange(k as int, stored.len() as int),
                k + rest@.len() == stored.len(),
                stored.len() <= usize::MAX,
                logs@.len() == k,
                forall|i: int| 0 <= i < k ==> receipt_log_matches(#[trigger] logs@[i], stored[i], receipt),
            decreases rest@.len(),
        {
            let ghost before = rest@;
            let item = rest.pop().unwrap();
            proof {
                assert(item == stored[k as int]) by {
                    assert(before.reverse()[0] == before.last());
                }
                assert(rest@.reverse() =~= stored.subrange(k + 1, stored.len() as int)) by {
                    assert(before.reverse().subrange(1, before.len() as int) =~= rest@.reverse());
                }
            }
            logs.push(
                Web3ReceiptLog {
                    address: item.address,
                    topics: item.topics,
                    data: Hex { bytes: item.data },
                    block_number: U256::from_u64(receipt.block_number),
                    transaction_hash: copy_hash(&receipt.tx_hash),
                    transaction_index: Some(U256::from_u64(receipt.tx_index as u64)),
                    block_hash: copy_hash(&receipt.block_hash),
                    log_index: U256::from_u64(0),
                    removed: false,
                },
            );
            k = k + 1;
        }
        Web3Receipt {
            block_number: U256::from_u64(receipt.block_number),
            block_hash: receipt.block_hash,
            contract_address,
            cumulative_gas_used: U256 { bytes: copy_bytes(&receipt.used_gas.bytes) },
            effective_gas_price: U256 { bytes: copy_bytes(&receipt.used_gas.bytes) },
            from: receipt.sender,
            status,
            gas_used: receipt.used_gas,
            logs,
            logs_bloom: receipt.logs_bloom,
            state_root: receipt.state_root,
            to,
            transaction_hash: receipt.tx_hash,
            transaction_index: Some(U256::from_u64(receipt.tx_index as u64)),
            transaction_type: Some(TRANSACTION_TYPE),
        }
    }
}

/// A block as `eth_getBlockByNumber` returns it.
#[derive(Clone, Debug, PartialEq, Eq)]
pub struct Web3Block {
    pub hash: H256,
    pub parent_hash: H256,
    pub sha3_uncles: H256,
    pub author: H160,
    pub miner: H160,
    pub state_root: H256,
    pub transactions_root: H256,
    pub receipts_root: H256,
    pub number: U256,
    pub gas_used: U256,
    pub gas_limit: U256,
    pub extra_data: Hex,
    pub logs_bloom: Option<Bloom>,
    pub timestamp: U256,
    pub difficulty: U256,
    pub total_difficulty: Option<U256>,
    pub seal_fields: Vec<Vec<u8>>,
    pub base_fee_per_gas: U256,
    pub uncles: Vec<H256>,
    pub transactions: Vec<RichTransactionOrHash>,
    pub size: Option<U256>,
    pub mix_hash: H256,
    pub nonce: U256,
}

/// A block header as the chain stores it.
#[derive(Clone, Debug, PartialEq, Eq)]
pub struct Header {
    pub prev_hash: H256,
    pub proposer: H160,
    pub state_root: H256,
    pub transactions_root: H256,
    pub receipts_root: H256,
    pub log_bloom: Bloom,
    pub difficulty: U256,
    pub timestamp: u64,
    pub number: u64,
    pub gas_used: U256,
    pub gas_limit: U256,
    pub extra_data: Vec<u8>,
    pub base_fee_per_gas: U256,
}

/// A block as the chain stores it: its header and its transactions' hashes.
#[derive(Clone, Debug, PartialEq, Eq)]
pub struct Block {
    pub header: Header,
    pub tx_hashes: Vec<H256>,
}

pub open spec fn rich_hashes(v: Seq<RichTransactionOrHash>) -> Seq<Seq<u8>> {
    v.map_values(|t: RichTransactionOrHash| match t {
        RichTransactionOrHash::Hash(h) => h@,
        RichTransactionOrHash::Rich(stx) => stx.transaction.hash@,
    })
}

impl Web3Block {
    /// Projects a stored block into the response shape. The header's hash and
    /// encoded size come from the chain's header encoding.
    pub fn from(b: Block, header_hash: H256, header_size: u64) -> (r: Web3Block)
        ensures
            r.hash == header_hash,
            r.number@ == u256_of(b.header.number as nat),
            r.author@ == b.header.proposer@,
            r.miner@ == b.header.proposer@,
            r.parent_hash == b.header.prev_hash,
            r.sha3_uncles@ == u256_of(0),
            r.logs_bloom == Some(b.header.log_bloom),
            r.transactions_root == b.header.transactions_root,
            r.state_root == b.header.state_root,
            r.receipts_root == b.header.receipts_root,
            r.difficulty == b.header.difficulty,
            r.total_difficulty is None,
            r.seal_fields@.len() == 0,
            r.base_fee_per_gas == b.header.base_fee_per_gas,
            r.extra_data.bytes == b.header.extra_data,
            opt_view256(r.size) == Some(u256_of(header_size as nat)),
            r.gas_limit == b.header.gas_limit,
            r.gas_used == b.header.gas_used,
            r.timestamp@ == u256_of(b.header.timestamp as nat),
            rich_hashes(r.transactions@) == hash_views(b.tx_hashes@),
            forall|i: int| 0 <= i < r.transactions@.len() ==> #[trigger] r.transactions@[i] is Hash,
            r.uncles@.len() == 0,
            r.mix_hash@ == u256_of(0),
            r.nonce@ == u256_of(0),
    {
        let h = b.header;
        let mut transactions: Vec<RichTransactionOrHash> = Vec::new();
        let mut i: usize = 0;
        while i < b.tx_hashes.len()
            invariant
                i <= b.tx_hashes@.len(),
                rich_hashes(transactions@) == hash_views(b.tx_hashes@.subrange(0, i as int)),
                forall|k: int| 0 <= k < transactions@.len() ==> #[trigger] transactions@[k] is Hash,
            decreases b.tx_hashes@.len() - i,
        {
            let ghost before = transactions@;
            let ghost pre = b.tx_hashes@.subrange(0, i as int);
            let x = copy_hash(&b.tx_hashes[i]);
            transactions.push(RichTransactionOrHash::Hash(x));
            i = i + 1;
            proof {
                assert(rich_hashes(transactions@) =~= rich_hashes(before).push(x@));
                assert(b.tx_hashes@.subrange(0, i as int) =~= pre.push(b.tx_hashes@[i - 1]));
                assert(hash_views(pre.push(b.tx_hashes@[i - 1])) =~= hash_views(pre).push(x@));
            }
        }
        proof {
            assert(b.tx_hashes@.subrange(0, i as int) =~= b.tx_hashes@);
        }
        let proposer = H160 { bytes: copy_bytes(&h.proposer.bytes) };
        Web3Block {
            hash: header_hash,
            number: U256::from_u64(h.number),
            author: proposer,
            parent_hash: h.prev_hash,
            sha3_uncles: U256::from_u64(0).into_hash(),
            logs_bloom: Some(h.log_bloom),
            transactions_root: h.transactions_root,
            state_root: h.state_root,
            receipts_root: h.receipts_root,
            miner: h.proposer,
            difficulty: h.difficulty,
            total_difficulty: None,
            seal_fields: Vec::new(),
            base_fee_per_gas: h.base_fee_per_gas,
            extra_data: Hex { bytes: h.extra_data },
            size: Some(U256::from_u64(header_size)),
            gas_limit: h.gas_limit,
            gas_used: h.gas_used,
            timestamp: U256::from_u64(h.timestamp),
            transactions,
            uncles: Vec::new(),
            mix_hash: U256::from_u64(0).into_hash(),
            nonce: U256::from_u64(0),
        }
    }
}

/// Condition under which a transaction may be included.
#[derive(Clone, Debug, PartialEq, Eq, Hash)]
pub enum TransactionCondition {
    Number(u64),
}

/// Parameters of `eth_call` and `eth_estimateGas`.
#[derive(Clone, Debug, PartialEq, Eq)]
pub struct Web3CallRequest {
    pub transaction_type: Option<u64>,
    pub from: Option<H160>,
    pub to: H160,
    pub gas_price: Option<U256>,
    pub max_fee_per_gas: Option<U256>,
    pub gas: Option<U256>,
    pub value: Option<U256>,
    pub data: Hex,
    pub nonce: Option<U256>,
    pub access_list: Option<Vec<AccessListItem>>,
    pub max_priority_fee_per_gas: Option<U256>,
}

/// The answer of `eth_getWork`.
#[derive(Clone, Debug, PartialEq, Eq)]
pub struct WEB3Work {
    pub pow_hash: H256,
    pub seed_hash: H256,
    pub target: H256,
    pub number: Option<u64>,
}

/// The filter of `eth_getLogs`.
#[derive(Clone, Debug, PartialEq, Eq)]
pub struct Web3Filter {
    pub from_block: Option<BlockId>,
    pub to_block: Option<BlockId>,
    pub block_hash: Option<H256>,
    pub address: Option<H160>,
    pub topics: Option<Vec<H256>>,
    pub limit: Option<usize>,
}

/// A log as `eth_getLogs` returns it.
#[derive(Clone, Debug, PartialEq, Eq)]
pub struct Web3Log {
    pub address: H160,
    pub topics: Vec<H256>,
    pub data: Hex,
    pub block_hash: Option<H256>,
    pub block_number: Option<U256>,
    pub transaction_hash: Option<H256>,
    pub transaction_index: Option<U256>,
    pub log_index: Option<U256>,
    pub removed: bool,
    pub log_type: String,
}

/// Progress of a node that is catching up.
#[derive(Clone, Debug, PartialEq, Eq)]
pub struct SyncStatus {
    pub starting_block: U256,
    pub current_block: U256,
    pub highest_block: U256,
    pub known_states: U256,
    pub pulled_states: U256,
}

/// The answer of `eth_syncing`: progress, or `false`.
#[derive(Clone, Debug, PartialEq, Eq)]
pub enum Web3SyncStatus {
    Doing(SyncStatus),
    False,
}

/// Synchronization state as consensus reports it.
#[derive(Clone, Debug, PartialEq, Eq)]
pub enum ConsensusSyncStatus {
    False,
    Syncing { start: U256, current: U256, highest: U256 },
}

impl Web3SyncStatus {
    pub fn from(inner: ConsensusSyncStatus) -> (r: Web3SyncStatus)
        ensures
            match inner {
                ConsensusSyncStatus::False => r == Web3SyncStatus::False,
                ConsensusSyncStatus::Syncing { start, current, highest } => r matches Web3SyncStatus::Doing(
                    s,
                ) && s.starting_block == start && s.current_block == current && s.highest_block
                    == highest && s.known_states@ == u256_of(0) && s.pulled_states@ == u256_of(0),
            },
    {
        match inner {
            ConsensusSyncStatus::False => Web3SyncStatus::False,
            ConsensusSyncStatus::Syncing { start, current, highest } => Web3SyncStatus::Doing(
                SyncStatus {
                    starting_block: start,
                    current_block: current,
                    highest_block: highest,
                    known_states: U256::from_u64(0),
                    pulled_states: U256::from_u64(0),
                },
            ),
        }
    }
}

/// What `eth_getFilterChanges` returns.
#[derive(Clone, Debug, PartialEq, Eq)]
pub enum FilterChanges {
    Logs(Vec<Web3Log>),
    Hashes(Vec<H256>),
    Empty,
}

/// The fee history of `eth_feeHistory`.
#[derive(Clone, Debug, PartialEq, Eq)]
pub struct Web3FeeHistory {
    pub oldest_block: U256,
    pub reward: Option<Vec<U256>>,
    pub base_fee_per_gas: Vec<U256>,
    pub gas_used_ratio: Vec<U256>,
}

} // verus!
