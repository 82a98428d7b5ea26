use axon_web3::types::{
    AccessListItem, FormatError, SignatureComponents, SignedTransaction, Transaction,
    TransactionAction, UnverifiedTransaction, H160, H256, U256,
};

fn hex_decode(s: &str) -> Vec<u8> {
    (0..s.len() / 2)
        .map(|i| u8::from_str_radix(&s[2 * i..2 * i + 2], 16).unwrap())
        .collect()
}

fn h256(b: u8) -> H256 {
    H256 { bytes: vec![b; 32] }
}

fn h160(b: u8) -> H160 {
    H160 { bytes: vec![b; 20] }
}

fn mock_transaction() -> Transaction {
    Transaction {
        nonce: U256::from_u64(1),
        gas_limit: U256::from_u64(1),
        max_priority_fee_per_gas: U256::from_u64(1),
        gas_price: U256::from_u64(1),
        action: TransactionAction::Create,
        value: U256::from_u64(1),
        data: (0..32u8).map(|i| i.wrapping_mul(37).wrapping_add(11)).collect(),
        access_list: vec![],
    }
}

fn mock_sig_component() -> SignatureComponents {
    SignatureComponents { standard_v: 4, r: H256::zero(), s: H256::zero() }
}

fn mock_unverfied_tx() -> UnverifiedTransaction {
    UnverifiedTransaction {
        unsigned: mock_transaction(),
        chain_id: 0x1234_5678_9abc_def0,
        hash: H256::zero(),
        signature: Some(mock_sig_component()),
    }
    .hash()
}

fn mock_signed_tx() -> SignedTransaction {
    SignedTransaction { transaction: mock_unverfied_tx(), sender: H160::zero(), public: None }
}

#[test]
fn test_signed_tx_codec() {
    let origin = mock_signed_tx();
    let encode = origin.rlp_bytes();
    let decode = SignedTransaction::decode(&encode).unwrap();
    assert_eq!(origin, decode);
}

#[test]
fn test_decode_unsigned_tx() {
    let raw = hex_decode("02f9016e2a80830f4240830f4240825208948d97689c9818892b700e27f316cc3e41e17fbeb9872386f26fc10000b8fe608060405234801561001057600080fd5b5060df8061001f6000396000f3006080604052600436106049576000357c0100000000000000000000000000000000000000000000000000000000900463ffffffff16806360fe47b114604e5780636d4ce63c146078575b600080fd5b348015605957600080fd5b5060766004803603810190808035906020019092919050505060a0565b005b348015608357600080fd5b50608a60aa565b6040518082815260200191505060405180910390f35b8060008190555050565b600080549050905600a165627a7a7230582099c66a25d59f0aa78f7ebc40748fa1d1fbc335d8d780f284841b30e0365acd960029c001a055ea090c41cb5c76a7065a04fc6355d7804809baccc8f86717ac4da1694621fba03310f10f3488b558f65a94fc164036aa69d88ab35f42dcf5d77b6f04c5cf8e72");
    let res = UnverifiedTransaction::decode(&raw[1..]);
    assert!(res.is_ok());
}

#[test]
fn decoded_vector_fields_and_reencoding() {
    let raw = hex_decode("02f9016e2a80830f4240830f4240825208948d97689c9818892b700e27f316cc3e41e17fbeb9872386f26fc10000b8fe608060405234801561001057600080fd5b5060df8061001f6000396000f3006080604052600436106049576000357c0100000000000000000000000000000000000000000000000000000000900463ffffffff16806360fe47b114604e5780636d4ce63c146078575b600080fd5b348015605957600080fd5b5060766004803603810190808035906020019092919050505060a0565b005b348015608357600080fd5b50608a60aa565b6040518082815260200191505060405180910390f35b8060008190555050565b600080549050905600a165627a7a7230582099c66a25d59f0aa78f7ebc40748fa1d1fbc335d8d780f284841b30e0365acd960029c001a055ea090c41cb5c76a7065a04fc6355d7804809baccc8f86717ac4da1694621fba03310f10f3488b558f65a94fc164036aa69d88ab35f42dcf5d77b6f04c5cf8e72");
    let t = UnverifiedTransaction::decode(&raw[1..]).unwrap();
    assert_eq!(t.chain_id, 42);
    assert_eq!(t.unsigned.nonce, U256::from_u64(0));
    assert_eq!(t.unsigned.gas_price, U256::from_u64(1_000_000));
    assert_eq!(t.unsigned.gas_limit, U256::from_u64(21_000));
    assert_eq!(t.unsigned.value, U256::from_u64(10_000_000_000_000_000));
    assert_eq!(t.unsigned.data.len(), 254);
    assert!(t.unsigned.access_list.is_empty());
    assert_eq!(t.signature.as_ref().unwrap().standard_v, 1);
    assert_eq!(t.rlp_bytes(), raw);
    // Keccak-256 of the wire bytes, not a copy of any input bytes.
    assert_eq!(t.hash.bytes.len(), 32);
    assert_ne!(t.hash.bytes, raw[raw.len() - 32..].to_vec());
}

fn sample(entries: usize, signed: bool) -> UnverifiedTransaction {
    let access_list = (0..entries)
        .map(|i| AccessListItem {
            address: h160(i as u8),
            slots: (0..(i % 3)).map(|j| h256((i * 7 + j) as u8)).collect(),
        })
        .collect();
    UnverifiedTransaction {
        unsigned: Transaction {
            nonce: U256::from_u64(7),
            max_priority_fee_per_gas: U256::from_u64(0),
            gas_price: U256::from_u64(0x0f4240),
            gas_limit: U256::from_u64(u64::MAX),
            action: TransactionAction::Call(h160(0xab)),
            value: U256 { bytes: vec![0xff; 32] },
            data: vec![0x80; 70],
            access_list,
        },
        signature: if signed {
            Some(SignatureComponents { standard_v: 1, r: h256(0x11), s: h256(0x22) })
        } else {
            None
        },
        chain_id: 5,
        hash: H256::zero(),
    }
    .hash()
}

#[test]
fn round_trip_access_list_sizes() {
    for n in [0usize, 1, 16] {
        for signed in [false, true] {
            let t = sample(n, signed);
            let mut body = Vec::new();
            t.rlp_append(&mut body);
            let back = UnverifiedTransaction::decode(&body).unwrap();
            assert_eq!(back, t);
            assert_eq!(back.unsigned.access_list.len(), n);
        }
    }
}

#[test]
fn wire_bytes_start_with_discriminator() {
    let t = sample(1, true);
    let w = t.rlp_bytes();
    assert_eq!(w[0], 0x02);
    let mut body = Vec::new();
    t.rlp_append(&mut body);
    assert_eq!(&w[1..], &body[..]);
}

#[test]
fn unsigned_has_nine_fields_signed_twelve() {
    let mut u = Vec::new();
    sample(0, false).rlp_append(&mut u);
    let mut s = Vec::new();
    sample(0, true).rlp_append(&mut s);
    assert_eq!(rlp::Rlp::new(&u).item_count().unwrap(), 9);
    assert_eq!(rlp::Rlp::new(&s).item_count().unwrap(), 12);
}

#[test]
fn altered_signature_changes_hash() {
    let t = sample(2, true);
    let mut body = Vec::new();
    t.rlp_append(&mut body);
    let last = body.len() - 1;
    body[last] ^= 0x01;
    let other = UnverifiedTransaction::decode(&body).unwrap();
    assert_ne!(other.hash, t.hash);
    assert_ne!(other.signature, t.signature);
    assert_eq!(other.unsigned, t.unsigned);
}

#[test]
fn hash_field_is_recomputed() {
    let mut t = sample(1, true);
    let good = t.hash.clone();
    t.hash = h256(0x99);
    let mut body = Vec::new();
    t.rlp_append(&mut body);
    let back = UnverifiedTransaction::decode(&body).unwrap();
    assert_eq!(back.hash, good);
}

fn raw_list(n: usize) -> Vec<u8> {
    let mut s = rlp::RlpStream::new_list(n);
    for _ in 0..n {
        s.append(&1u8);
    }
    s.out().to_vec()
}

#[test]
fn ten_or_eleven_fields_are_refused() {
    assert_eq!(UnverifiedTransaction::decode(&raw_list(10)), Err(FormatError::WrongFieldCount));
    assert_eq!(UnverifiedTransaction::decode(&raw_list(11)), Err(FormatError::WrongFieldCount));
    assert_eq!(UnverifiedTransaction::decode(&raw_list(13)), Err(FormatError::WrongFieldCount));
}

fn body_with_entry_of(n: usize) -> Vec<u8> {
    let mut s = rlp::RlpStream::new_list(9);
    s.append(&1u8);
    for _ in 0..4 {
        s.append(&1u8);
    }
    s.append(&vec![0x22u8; 20]);
    s.append(&1u8);
    s.append(&Vec::<u8>::new());
    s.begin_list(1);
    s.begin_list(n);
    for _ in 0..n {
        s.append(&vec![0x33u8; 20]);
    }
    s.out().to_vec()
}

#[test]
fn access_list_entry_needs_two_items() {
    assert!(UnverifiedTransaction::decode(&body_with_entry_of(2)).is_err());
    assert_eq!(
        UnverifiedTransaction::decode(&body_with_entry_of(1)),
        Err(FormatError::BadAccessListEntry)
    );
    assert_eq!(
        UnverifiedTransaction::decode(&body_with_entry_of(3)),
        Err(FormatError::BadAccessListEntry)
    );
}

#[test]
fn integer_with_leading_zero_is_refused() {
    let mut s = rlp::RlpStream::new_list(9);
    s.append(&vec![0u8, 1u8]);
    for _ in 0..4 {
        s.append(&1u8);
    }
    s.append(&Vec::<u8>::new());
    s.append(&1u8);
    s.append(&Vec::<u8>::new());
    s.begin_list(0);
    assert_eq!(UnverifiedTransaction::decode(&s.out()), Err(FormatError::BadInteger));
}

#[test]
fn short_address_is_refused() {
    let mut s = rlp::RlpStream::new_list(9);
    for _ in 0..5 {
        s.append(&1u8);
    }
    s.append(&vec![0x22u8; 19]);
    s.append(&1u8);
    s.append(&Vec::<u8>::new());
    s.begin_list(0);
    assert_eq!(UnverifiedTransaction::decode(&s.out()), Err(FormatError::BadLength));
}

#[test]
fn truncated_input_is_refused() {
    let mut body = Vec::new();
    sample(1, true).rlp_append(&mut body);
    body.truncate(body.len() - 5);
    assert!(UnverifiedTransaction::decode(&body).is_err());
}

#[test]
fn string_where_list_expected_is_a_framing_error() {
    let s = rlp::encode(&vec![1u8, 2, 3]).to_vec();
    assert!(matches!(UnverifiedTransaction::decode(&s), Err(FormatError::Rlp(_))));
}

#[test]
fn create_action_and_public_key_round_trip() {
    let mut t = sample(3, true);
    t.unsigned.action = TransactionAction::Create;
    let t = t.hash();
    let s = SignedTransaction {
        transaction: t,
        sender: h160(0x42),
        public: Some(axon_web3::types::Public { bytes: vec![0x5a; 64] }),
    };
    let back = SignedTransaction::decode(&s.rlp_bytes()).unwrap();
    assert_eq!(back, s);
}

#[test]
fn u256_from_u64_is_big_endian() {
    let u = U256::from_u64(0x0102);
    let mut want = vec![0u8; 30];
    want.extend_from_slice(&[1, 2]);
    assert_eq!(u.bytes, want);
}

fn body_with_entries(shapes: &[usize]) -> Vec<u8> {
    let mut s = rlp::RlpStream::new_list(9);
    s.append(&1u8);
    for _ in 0..4 {
        s.append(&1u8);
    }
    s.append(&vec![0x22u8; 20]);
    s.append(&1u8);
    s.append(&Vec::<u8>::new());
    s.begin_list(shapes.len());
    for &n in shapes {
        if n == 2 {
            s.begin_list(2);
            s.append(&vec![0x33u8; 20]);
            s.begin_list(1);
            s.append(&vec![0x44u8; 32]);
        } else {
            s.begin_list(n);
            for _ in 0..n {
                s.append(&vec![0x33u8; 20]);
            }
        }
    }
    s.out().to_vec()
}

#[test]
fn bad_access_list_entry_anywhere() {
    assert!(UnverifiedTransaction::decode(&body_with_entries(&[2, 2])).is_ok());
    assert_eq!(
        UnverifiedTransaction::decode(&body_with_entries(&[2, 3, 2])),
        Err(FormatError::BadAccessListEntry)
    );
    assert_eq!(
        UnverifiedTransaction::decode(&body_with_entries(&[1, 2])),
        Err(FormatError::BadAccessListEntry)
    );
}

#[test]
fn nine_or_twelve_fields_never_count_error() {
    assert_ne!(UnverifiedTransaction::decode(&raw_list(9)), Err(FormatError::WrongFieldCount));
    assert_ne!(UnverifiedTransaction::decode(&raw_list(12)), Err(FormatError::WrongFieldCount));
}

#[test]
fn decoded_fields_come_from_items() {
    let t = UnverifiedTransaction::decode(&body_with_entries(&[2])).unwrap();
    assert_eq!(t.chain_id, 1);
    assert_eq!(t.unsigned.nonce, U256::from_u64(1));
    assert_eq!(t.unsigned.action, TransactionAction::Call(h160(0x22)));
    assert_eq!(t.unsigned.access_list.len(), 1);
    assert_eq!(t.unsigned.access_list[0].address, h160(0x33));
    assert_eq!(t.unsigned.access_list[0].slots, vec![h256(0x44)]);
    assert!(t.signature.is_none());
}
