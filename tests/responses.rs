use axon_web3::block::{data_text_exec, quantity_text_exec, BlockId, Web3BlockNumber};
use axon_web3::codec::decode_wire;
use axon_web3::filter::block_number_to_id;
use axon_web3::types::{
    AccessListItem, FormatError, SignatureComponents, SignedTransaction, Transaction,
    TransactionAction, UnverifiedTransaction, H160, H256, U256,
};
use axon_web3::web3_types::{
    Block, Bloom, ConsensusSyncStatus, Header, Log, Receipt, RichTransactionOrHash, Web3Block,
    Web3Receipt, Web3SyncStatus, Web3Transaction,
};
use tiny_keccak::Hasher;

fn h256(b: u8) -> H256 {
    H256 { bytes: vec![b; 32] }
}

fn h160(b: u8) -> H160 {
    H160 { bytes: vec![b; 20] }
}

fn signed(signature: bool) -> SignedTransaction {
    let t = UnverifiedTransaction {
        unsigned: Transaction {
            nonce: U256::from_u64(3),
            max_priority_fee_per_gas: U256::from_u64(2),
            gas_price: U256::from_u64(9),
            gas_limit: U256::from_u64(21000),
            action: TransactionAction::Call(h160(0x77)),
            value: U256::from_u64(500),
            data: vec![1, 2, 3],
            access_list: vec![AccessListItem { address: h160(1), slots: vec![h256(2)] }],
        },
        signature: if signature {
            Some(SignatureComponents { standard_v: 1, r: h256(0x0a), s: h256(0x0b) })
        } else {
            None
        },
        chain_id: 42,
        hash: H256::zero(),
    }
    .hash();
    SignedTransaction { transaction: t, sender: h160(0x55), public: None }
}

fn receipt() -> Receipt {
    let mut code = vec![0u8; 12];
    code.extend_from_slice(&[0xcd; 20]);
    Receipt {
        tx_hash: h256(0x01),
        block_number: 100,
        block_hash: h256(0x02),
        tx_index: 4,
        state_root: h256(0x03),
        used_gas: U256::from_u64(21000),
        logs_bloom: Bloom { bytes: vec![0; 256] },
        logs: vec![
            Log { address: h160(0x10), topics: vec![h256(0x11)], data: vec![0xaa] },
            Log { address: h160(0x20), topics: vec![], data: vec![] },
        ],
        code_address: Some(H256 { bytes: code }),
        sender: h160(0x55),
        succeeded: true,
        removed: false,
    }
}

#[test]
fn keccak_hash_of_wire_bytes() {
    let t = signed(true).transaction;
    let mut k = tiny_keccak::Keccak::v256();
    k.update(&t.rlp_bytes());
    let mut out = [0u8; 32];
    k.finalize(&mut out);
    assert_eq!(t.hash.bytes, out.to_vec());
}

#[test]
fn wire_decoder_checks_discriminator() {
    let t = signed(true).transaction;
    let w = t.rlp_bytes();
    assert_eq!(decode_wire(&w), Ok(t));
    let mut bad = w.clone();
    bad[0] = 0x01;
    assert_eq!(decode_wire(&bad), Err(FormatError::WrongType));
    assert_eq!(decode_wire(&[]), Err(FormatError::WrongType));
}

#[test]
fn transaction_projection() {
    let stx = signed(true);
    let w = Web3Transaction::create(receipt(), stx.clone());
    assert_eq!(w.block_number, U256::from_u64(100));
    assert_eq!(w.hash, h256(0x01));
    assert_eq!(w.contract_address, Some(H160 { bytes: vec![0xcd; 20] }));
    assert_eq!(w.creates, w.contract_address);
    assert_eq!(w.to, Some(h160(0x77)));
    assert_eq!(w.raw.bytes, stx.transaction.rlp_bytes());
    assert_eq!(w.input.bytes, vec![1, 2, 3]);
    assert_eq!(w.max_fee_per_gas, U256::from_u64(1337));
    assert_eq!(w.type_, Some(2));
    assert_eq!(w.chain_id, Some(U256::from_u64(42)));
    assert_eq!(w.standard_v, Some(U256::from_u64(1)));
    assert_eq!(w.r.bytes, vec![0x0a; 32]);
    assert_eq!(w.s.bytes, vec![0x0b; 32]);
    assert_eq!(w.transaction_index, Some(U256::from_u64(4)));
    assert_eq!(w.nonece, U256::from_u64(3));
    let unsigned = Web3Transaction::create(receipt(), signed(false));
    assert_eq!(unsigned.standard_v, Some(U256::from_u64(0)));
    assert_eq!(unsigned.r, U256::from_u64(0));
}

#[test]
fn receipt_projection() {
    let r = Web3Receipt::new(receipt(), signed(true));
    assert_eq!(r.status, U256::from_u64(1));
    assert_eq!(r.logs.len(), 2);
    assert_eq!(r.logs[0].address, h160(0x10));
    assert_eq!(r.logs[0].data.bytes, vec![0xaa]);
    assert_eq!(r.logs[1].address, h160(0x20));
    assert_eq!(r.logs[1].block_number, U256::from_u64(100));
    assert!(!r.logs[1].removed);
    assert_eq!(r.transaction_type, Some(2));
    assert_eq!(r.gas_used, U256::from_u64(21000));
    let mut failed = receipt();
    failed.succeeded = false;
    failed.code_address = None;
    let r = Web3Receipt::new(failed, signed(true));
    assert_eq!(r.status, U256::from_u64(0));
    assert_eq!(r.contract_address, None);
}

#[test]
fn block_projection() {
    let header = Header {
        prev_hash: h256(1),
        proposer: h160(2),
        state_root: h256(3),
        transactions_root: h256(4),
        receipts_root: h256(5),
        log_bloom: Bloom { bytes: vec![0; 256] },
        difficulty: U256::from_u64(1),
        timestamp: 1_700_000_000,
        number: 77,
        gas_used: U256::from_u64(10),
        gas_limit: U256::from_u64(20),
        extra_data: vec![9, 9],
        base_fee_per_gas: U256::from_u64(7),
    };
    let b = Block { header, tx_hashes: vec![h256(0xa1), h256(0xa2)] };
    let w = Web3Block::from(b, h256(0xee), 512);
    assert_eq!(w.hash, h256(0xee));
    assert_eq!(w.number, U256::from_u64(77));
    assert_eq!(w.author, h160(2));
    assert_eq!(w.miner, h160(2));
    assert_eq!(w.size, Some(U256::from_u64(512)));
    assert_eq!(w.timestamp, U256::from_u64(1_700_000_000));
    assert_eq!(
        w.transactions,
        vec![RichTransactionOrHash::Hash(h256(0xa1)), RichTransactionOrHash::Hash(h256(0xa2))]
    );
    assert!(w.uncles.is_empty());
}

#[test]
fn rich_or_hash_gives_hash() {
    let stx = signed(true);
    let want = stx.transaction.hash.clone();
    assert_eq!(RichTransactionOrHash::Rich(stx).get_hash(), want);
    assert_eq!(RichTransactionOrHash::Hash(h256(3)).get_hash(), h256(3));
}

#[test]
fn sync_status_conversion() {
    assert_eq!(Web3SyncStatus::from(ConsensusSyncStatus::False), Web3SyncStatus::False);
    let s = Web3SyncStatus::from(ConsensusSyncStatus::Syncing {
        start: U256::from_u64(1),
        current: U256::from_u64(2),
        highest: U256::from_u64(3),
    });
    match s {
        Web3SyncStatus::Doing(d) => {
            assert_eq!(d.starting_block, U256::from_u64(1));
            assert_eq!(d.highest_block, U256::from_u64(3));
            assert_eq!(d.known_states, U256::from_u64(0));
        },
        Web3SyncStatus::False => panic!("expected progress"),
    }
}

#[test]
fn block_identifier_text() {
    assert_eq!(BlockId::Latest.text().into_iter().collect::<String>(), "latest");
    assert_eq!(BlockId::Num(255).text().into_iter().collect::<String>(), "0xff");
    assert_eq!(BlockId::Num(0).text().into_iter().collect::<String>(), "0x0");
    assert_eq!(Web3BlockNumber::Pending.text().into_iter().collect::<String>(), "pending");
    let h = H256 { bytes: (0..32u8).collect() };
    let text: String = Web3BlockNumber::Hash { hash: h, require_canonical: true }.text().into_iter().collect();
    assert_eq!(
        text,
        "{ 'hash': '0x000102030405060708090a0b0c0d0e0f101112131415161718191a1b1c1d1e1f', 'requireCanonical': 'true'  }"
    );
}

#[test]
fn block_number_to_id_maps_pending_to_latest() {
    assert_eq!(block_number_to_id(Web3BlockNumber::Pending), BlockId::Latest);
    assert_eq!(block_number_to_id(Web3BlockNumber::Num(5)), BlockId::Num(5));
    assert_eq!(
        block_number_to_id(Web3BlockNumber::Hash { hash: h256(1), require_canonical: true }),
        BlockId::Hash(h256(1))
    );
}

#[test]
fn hex_texts() {
    let t: String = data_text_exec(&[0x00, 0xab]).into_iter().collect();
    assert_eq!(t, "0x00ab");
    let q: String = quantity_text_exec(&U256::from_u64(0x0abc).bytes).into_iter().collect();
    assert_eq!(q, "0xabc");
    let z: String = quantity_text_exec(&U256::from_u64(0).bytes).into_iter().collect();
    assert_eq!(z, "0x0");
    let m: String = quantity_text_exec(&[0x01, 0x00]).into_iter().collect();
    assert_eq!(m, "0x100");
}
