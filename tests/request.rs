use axon_web3::block::{
    parse_block_id, parse_block_number, parse_index, BlockId, Index, ParseError, Web3BlockNumber,
};
use axon_web3::filter::{
    parse_change_filter, parse_variadic, parse_web3_filter, ChangeWeb3Filter, VariadicValue,
};
use axon_web3::text::Json;
use axon_web3::types::{H160, H256, U256};

fn s(x: &str) -> Json {
    Json::Str(x.to_string())
}

fn obj(entries: Vec<(&str, Json)>) -> Json {
    Json::Object(entries.into_iter().map(|(k, v)| (k.to_string(), v)).collect())
}

fn hex_of(b: u8, n: usize) -> String {
    let mut out = "0x".to_string();
    for _ in 0..n {
        out.push_str(&format!("{:02x}", b));
    }
    out
}

fn h256(b: u8) -> H256 {
    H256 { bytes: vec![b; 32] }
}

fn h160(b: u8) -> H160 {
    H160 { bytes: vec![b; 20] }
}

#[test]
fn block_id_latest() {
    assert_eq!(parse_block_id(&s("latest")), Ok(BlockId::Latest));
}

#[test]
fn block_id_hex_number() {
    assert_eq!(parse_block_id(&s("0x10")), Ok(BlockId::Num(16)));
    assert_eq!(parse_block_id(&s("0xFF")), Ok(BlockId::Num(255)));
}

#[test]
fn block_id_without_prefix_fails() {
    assert_eq!(parse_block_id(&s("10")), Err(ParseError::MissingHexPrefix));
}

#[test]
fn block_id_hash_object() {
    let j = obj(vec![("blockHash", Json::Str(hex_of(0xaa, 32))), ("requireCanonical", Json::Bool(true))]);
    assert_eq!(parse_block_id(&j), Ok(BlockId::Hash(h256(0xaa))));
}

#[test]
fn block_id_unknown_field() {
    let j = obj(vec![("foo", Json::Number(1))]);
    assert_eq!(parse_block_id(&j), Err(ParseError::UnknownField("foo".to_string())));
}

#[test]
fn block_id_bad_hex_and_overflow() {
    assert_eq!(parse_block_id(&s("0x")), Err(ParseError::InvalidNumber));
    assert_eq!(parse_block_id(&s("0xzz")), Err(ParseError::InvalidNumber));
    assert_eq!(parse_block_id(&s("0x10000000000000000")), Err(ParseError::InvalidNumber));
    assert_eq!(parse_block_id(&s("0xffffffffffffffff")), Ok(BlockId::Num(u64::MAX)));
    assert_eq!(parse_block_id(&s("pending")), Err(ParseError::MissingHexPrefix));
    assert_eq!(parse_block_id(&Json::Bool(true)), Err(ParseError::InvalidType));
}

#[test]
fn block_id_object_forms() {
    let j = obj(vec![("blockNumber", s("0x2a"))]);
    assert_eq!(parse_block_id(&j), Err(ParseError::UnknownField("blockNumber".to_string())));
    assert_eq!(
        parse_block_number(&j),
        Err(ParseError::UnknownField("blockNumber".to_string()))
    );
    let j = obj(vec![("requireCanonical", Json::Bool(false))]);
    assert_eq!(parse_block_id(&j), Err(ParseError::MissingField));
    assert_eq!(parse_block_id(&obj(vec![])), Err(ParseError::MissingField));
    let short = obj(vec![("blockHash", s("0xaa"))]);
    assert_eq!(parse_block_id(&short), Err(ParseError::InvalidHex));
}

#[test]
fn block_number_tags() {
    assert_eq!(parse_block_number(&s("latest")), Ok(Web3BlockNumber::Latest));
    assert_eq!(parse_block_number(&s("pending")), Ok(Web3BlockNumber::Pending));
    assert_eq!(parse_block_number(&s("0x10")), Ok(Web3BlockNumber::Num(16)));
    assert_eq!(parse_block_number(&s("earliest")), Err(ParseError::MissingHexPrefix));
    let j = obj(vec![("requireCanonical", Json::Bool(true)), ("blockHash", Json::Str(hex_of(0x01, 32)))]);
    assert_eq!(
        parse_block_number(&j),
        Ok(Web3BlockNumber::Hash { hash: h256(0x01), require_canonical: true })
    );
}

#[test]
fn to_min_block_num_only_for_numbers() {
    assert_eq!(Web3BlockNumber::Num(9).to_min_block_num(), Some(9));
    assert_eq!(Web3BlockNumber::Latest.to_min_block_num(), None);
    assert_eq!(Option::<u64>::from(BlockId::Num(3)), Some(3));
    assert_eq!(Option::<u64>::from(BlockId::Hash(h256(1))), None);
    assert_eq!(Option::<u64>::from(BlockId::Latest), None);
    assert_eq!(BlockId::default(), BlockId::Latest);
    assert_eq!(Web3BlockNumber::default(), Web3BlockNumber::Latest);
}

#[test]
fn index_hex_and_decimal() {
    assert_eq!(parse_index(&s("0x1f")).map(|i| i.value()), Ok(31));
    assert_eq!(parse_index(&s("42")), Ok(Index(42)));
    assert_eq!(parse_index(&s("4x2")), Err(ParseError::InvalidIndex));
    assert_eq!(parse_index(&s("")), Err(ParseError::InvalidIndex));
    assert_eq!(parse_index(&Json::Number(4)), Err(ParseError::InvalidIndex));
}

#[test]
fn variadic_expansion() {
    assert_eq!(parse_variadic::<H256>(&Json::Null), Ok(VariadicValue::Null));
    assert_eq!(
        parse_variadic::<H256>(&Json::Str(hex_of(0xab, 32))),
        Ok(VariadicValue::Single(h256(0xab)))
    );
    let arr = Json::Array(vec![Json::Str(hex_of(0xab, 32)), Json::Str(hex_of(0xde, 32))]);
    assert_eq!(
        parse_variadic::<H256>(&arr),
        Ok(VariadicValue::Multiple(vec![h256(0xab), h256(0xde)]))
    );
    assert_eq!(parse_variadic::<H160>(&Json::Bool(false)), Err(ParseError::InvalidVariadic));
    let bad = Json::Array(vec![Json::Str(hex_of(0xab, 32)), Json::Number(1)]);
    assert_eq!(parse_variadic::<H256>(&bad), Err(ParseError::InvalidVariadic));
}

#[test]
fn filter_canonicalization_end_to_end() {
    let j = obj(vec![
        ("blockHash", Json::Str(hex_of(0xbb, 32))),
        ("address", Json::Str(hex_of(0xcc, 20))),
        (
            "topics",
            Json::Array(vec![
                Json::Null,
                Json::Array(vec![Json::Str(hex_of(0xdd, 32)), Json::Str(hex_of(0xee, 32))]),
            ]),
        ),
    ]);
    let f = parse_change_filter(&j).unwrap().try_into();
    assert_eq!(f.from_block, BlockId::Hash(h256(0xbb)));
    assert_eq!(f.to_block, BlockId::Hash(h256(0xbb)));
    assert_eq!(f.address, Some(vec![h160(0xcc)]));
    assert_eq!(f.topics, vec![None, Some(vec![h256(0xdd), h256(0xee)]), None, None]);
    assert_eq!(f.limit, None);
}

#[test]
fn topic_overflow_keeps_four_slots() {
    let topics: Vec<Json> = (1..=6u8).map(|b| Json::Str(hex_of(b, 32))).collect();
    let j = obj(vec![("topics", Json::Array(topics))]);
    let f = parse_change_filter(&j).unwrap().try_into();
    assert_eq!(f.topics.len(), 4);
    assert_eq!(
        f.topics,
        vec![
            Some(vec![h256(1)]),
            Some(vec![h256(2)]),
            Some(vec![h256(3)]),
            Some(vec![h256(4)])
        ]
    );
}

#[test]
fn filter_bounds_default_and_pending() {
    let f = ChangeWeb3Filter {
        from_block: Some(Web3BlockNumber::Pending),
        to_block: None,
        block_hash: None,
        address: Some(VariadicValue::Null),
        topics: None,
        limit: Some(10),
    }
    .try_into();
    assert_eq!(f.from_block, BlockId::Latest);
    assert_eq!(f.to_block, BlockId::Latest);
    assert_eq!(f.address, None);
    assert_eq!(f.topics, vec![None, None, None, None]);
    assert_eq!(f.limit, Some(10));
}

#[test]
fn filter_block_hash_overrides_bounds() {
    let f = ChangeWeb3Filter {
        from_block: Some(Web3BlockNumber::Num(1)),
        to_block: Some(Web3BlockNumber::Num(2)),
        block_hash: Some(h256(7)),
        address: Some(VariadicValue::Multiple(vec![h160(1), h160(2)])),
        topics: Some(vec![VariadicValue::Single(h256(3))]),
        limit: None,
    }
    .try_into();
    assert_eq!(f.from_block, BlockId::Hash(h256(7)));
    assert_eq!(f.to_block, BlockId::Hash(h256(7)));
    assert_eq!(f.address, Some(vec![h160(1), h160(2)]));
    assert_eq!(f.topics, vec![Some(vec![h256(3)]), None, None, None]);
}

#[test]
fn filter_number_bounds() {
    let j = obj(vec![("fromBlock", s("0x1")), ("toBlock", s("latest")), ("limit", Json::Number(5))]);
    let f = parse_change_filter(&j).unwrap().try_into();
    assert_eq!(f.from_block, BlockId::Num(1));
    assert_eq!(f.to_block, BlockId::Latest);
    assert_eq!(f.limit, Some(5));
}

#[test]
fn filter_strict_mode() {
    let j = obj(vec![("fromBlock", s("0x1")), ("form", s("0x2"))]);
    assert_eq!(parse_change_filter(&j), Err(ParseError::UnknownField("form".to_string())));
    let j = obj(vec![("limit", Json::Number(1)), ("limit", Json::Number(2))]);
    assert_eq!(parse_change_filter(&j), Err(ParseError::DuplicateField("limit".to_string())));
    let j = obj(vec![("topics", s("0x1"))]);
    assert_eq!(parse_change_filter(&j), Err(ParseError::InvalidType));
    assert_eq!(parse_change_filter(&Json::Null), Err(ParseError::InvalidType));
    let j = obj(vec![("fromBlock", s("12"))]);
    assert_eq!(parse_change_filter(&j), Err(ParseError::MissingHexPrefix));
}

#[test]
fn filter_null_fields_are_absent() {
    let j = obj(vec![("address", Json::Null), ("topics", Json::Null), ("fromBlock", Json::Null)]);
    let f = parse_change_filter(&j).unwrap();
    assert_eq!(f.address, None);
    assert_eq!(f.topics, None);
    assert_eq!(f.from_block, None);
}

#[test]
fn log_filter_strict_parse() {
    let j = obj(vec![
        ("fromBlock", s("0x5")),
        ("toBlock", s("latest")),
        ("address", Json::Str(hex_of(0x12, 20))),
        ("topics", Json::Array(vec![Json::Str(hex_of(0x34, 32))])),
        ("limit", Json::Number(3)),
    ]);
    let f = parse_web3_filter(&j).unwrap();
    assert_eq!(f.from_block, Some(BlockId::Num(5)));
    assert_eq!(f.to_block, Some(BlockId::Latest));
    assert_eq!(f.block_hash, None);
    assert_eq!(f.address, Some(h160(0x12)));
    assert_eq!(f.topics, Some(vec![h256(0x34)]));
    assert_eq!(f.limit, Some(3));
    let bad = obj(vec![("fromBlock", s("0x5")), ("extra", Json::Null)]);
    assert_eq!(parse_web3_filter(&bad), Err(ParseError::UnknownField("extra".to_string())));
    let bad = obj(vec![("address", Json::Array(vec![]))]);
    assert_eq!(parse_web3_filter(&bad), Err(ParseError::InvalidType));
    let bad = obj(vec![("topics", Json::Array(vec![s("0x12")]))]);
    assert_eq!(parse_web3_filter(&bad), Err(ParseError::InvalidHex));
}

#[test]
fn variadic_hex_numbers() {
    assert_eq!(parse_variadic::<U256>(&Json::Null), Ok(VariadicValue::Null));
    assert_eq!(parse_variadic::<U256>(&s("0xabc")), Ok(VariadicValue::Single(U256::from_u64(0xabc))));
    let arr = Json::Array(vec![s("0xabc"), s("0xdef")]);
    assert_eq!(
        parse_variadic::<U256>(&arr),
        Ok(VariadicValue::Multiple(vec![U256::from_u64(0xabc), U256::from_u64(0xdef)]))
    );
    assert_eq!(parse_variadic::<U256>(&s("0x")), Err(ParseError::InvalidVariadic));
    assert_eq!(parse_variadic::<U256>(&s("abc")), Err(ParseError::InvalidVariadic));
    let wide = format!("0x1{}", "0".repeat(64));
    assert_eq!(parse_variadic::<U256>(&Json::Str(wide)), Err(ParseError::InvalidVariadic));
    let max = format!("0x{}", "f".repeat(64));
    assert_eq!(
        parse_variadic::<U256>(&Json::Str(max)),
        Ok(VariadicValue::Single(U256 { bytes: vec![0xff; 32] }))
    );
}
