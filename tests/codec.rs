use dubhe_indexer::codec::{address_hex, decode, u256_decimal, DecodeError, MoveScalar, ParsedMoveValue};
use dubhe_indexer::sql::DBData;
use dubhe_indexer::table::{TableField, TableMetadata};

fn scalar(s: MoveScalar) -> ParsedMoveValue {
    ParsedMoveValue::Scalar(s)
}

#[test]
fn decodes_each_scalar() {
    assert_eq!(decode("u8", &[7]), Ok(scalar(MoveScalar::U8(7))));
    assert_eq!(decode("u16", &[0x34, 0x12]), Ok(scalar(MoveScalar::U16(0x1234))));
    assert_eq!(decode("u32", &[1, 0, 0, 1]), Ok(scalar(MoveScalar::U32(0x0100_0001))));
    assert_eq!(decode("u64", &bcs::to_bytes(&123456789012u64).unwrap()), Ok(scalar(MoveScalar::U64(123456789012))));
    assert_eq!(decode("u128", &bcs::to_bytes(&u128::MAX).unwrap()), Ok(scalar(MoveScalar::U128(u128::MAX))));
    assert_eq!(decode("bool", &[1]), Ok(scalar(MoveScalar::Bool(true))));
    assert_eq!(decode("bool", &[0]), Ok(scalar(MoveScalar::Bool(false))));
    let mut w = [0u8; 32];
    w[0] = 5;
    w[31] = 0xab;
    assert_eq!(decode("u256", &w), Ok(scalar(MoveScalar::U256(w))));
    assert_eq!(decode("address", &w), Ok(scalar(MoveScalar::Address(w))));
}

#[test]
fn decodes_vectors() {
    let v: Vec<u64> = vec![1, 2, 300];
    let expected = ParsedMoveValue::Vector(v.iter().map(|x| MoveScalar::U64(*x)).collect());
    assert_eq!(decode("vector<u64>", &bcs::to_bytes(&v).unwrap()), Ok(expected));
    assert_eq!(
        decode("vector<u8>", &[3, 9, 8, 7]),
        Ok(ParsedMoveValue::Vector(vec![MoveScalar::U8(9), MoveScalar::U8(8), MoveScalar::U8(7)]))
    );
    assert_eq!(
        decode("vector<bool>", &[2, 1, 0]),
        Ok(ParsedMoveValue::Vector(vec![MoveScalar::Bool(true), MoveScalar::Bool(false)]))
    );
    let vv: Vec<Vec<u16>> = vec![vec![1], vec![], vec![2, 3]];
    let expected = ParsedMoveValue::Nested(
        vv.iter().map(|w| w.iter().map(|x| MoveScalar::U16(*x)).collect()).collect(),
    );
    assert_eq!(decode("vector<vector<u16>>", &bcs::to_bytes(&vv).unwrap()), Ok(expected));
    let addrs: Vec<[u8; 32]> = vec![[1u8; 32], [2u8; 32]];
    assert_eq!(
        decode("vector<address>", &bcs::to_bytes(&addrs).unwrap()),
        Ok(ParsedMoveValue::Vector(vec![MoveScalar::Address([1u8; 32]), MoveScalar::Address([2u8; 32])]))
    );
}

#[test]
fn round_trip_of_every_tag() {
    let cases: Vec<(&str, Vec<u8>)> = vec![
        ("u16", bcs::to_bytes(&65535u16).unwrap()),
        ("u32", bcs::to_bytes(&7u32).unwrap()),
        ("vector<u16>", bcs::to_bytes(&vec![1u16, 2]).unwrap()),
        ("vector<u32>", bcs::to_bytes(&vec![1u32, 2]).unwrap()),
        ("vector<u128>", bcs::to_bytes(&vec![1u128 << 100]).unwrap()),
        ("vector<u256>", bcs::to_bytes(&vec![[9u8; 32]]).unwrap()),
        ("vector<vector<u8>>", bcs::to_bytes(&vec![vec![1u8, 2], vec![]]).unwrap()),
        ("vector<vector<u32>>", bcs::to_bytes(&vec![vec![1u32]]).unwrap()),
        ("vector<vector<u64>>", bcs::to_bytes(&vec![vec![1u64, 5]]).unwrap()),
        ("vector<vector<u128>>", bcs::to_bytes(&vec![vec![3u128]]).unwrap()),
    ];
    for (tag, bytes) in cases {
        assert!(decode(tag, &bytes).is_ok(), "tag {}", tag);
    }
    assert_eq!(
        decode("vector<vector<u8>>", &[2, 2, 1, 2, 0]),
        Ok(ParsedMoveValue::Nested(vec![vec![MoveScalar::U8(1), MoveScalar::U8(2)], vec![]]))
    );
}

#[test]
fn malformed_bytes_are_refused() {
    assert_eq!(decode("u64", &[1, 2, 3]), Err(DecodeError::Malformed));
    assert_eq!(decode("u8", &[1, 2]), Err(DecodeError::Malformed));
    assert_eq!(decode("bool", &[2]), Err(DecodeError::Malformed));
    assert_eq!(decode("address", &[0u8; 31]), Err(DecodeError::Malformed));
    assert_eq!(decode("vector<u8>", &[3, 1, 2]), Err(DecodeError::Malformed));
    assert_eq!(decode("vector<u16>", &[0x80, 0x00]), Err(DecodeError::Malformed));
}

#[test]
fn unknown_tag_reads_a_byte_vector() {
    assert_eq!(
        decode("some_struct", &[2, 10, 20]),
        Ok(ParsedMoveValue::Vector(vec![MoveScalar::U8(10), MoveScalar::U8(20)]))
    );
    assert_eq!(decode("vector<vector<string>>", &[0]), Ok(ParsedMoveValue::Vector(vec![])));
    assert_eq!(decode("some_struct", &[5, 1]), Err(DecodeError::Malformed));
}

#[test]
fn u256_as_decimal_text() {
    assert_eq!(u256_decimal(&[0u8; 32]), "0");
    let mut w = [0u8; 32];
    w[0] = 0x39;
    w[1] = 0x30;
    assert_eq!(u256_decimal(&w), "12345");
    assert_eq!(
        u256_decimal(&[0xffu8; 32]),
        "115792089237316195423570985008687907853269984665640564039457584007913129639935"
    );
    let mut w = [0u8; 32];
    w[16] = 1;
    assert_eq!(u256_decimal(&w), "340282366920938463463374607431768211456");
}

#[test]
fn address_as_hex_text() {
    let mut w = [0u8; 32];
    w[0] = 0xab;
    w[31] = 0x0f;
    assert_eq!(
        address_hex(&w),
        "0xab0000000000000000000000000000000000000000000000000000000000000f"
    );
}

fn sample_table() -> TableMetadata {
    TableMetadata {
        name: "t".to_string(),
        table_type: "component".to_string(),
        fields: vec![
            TableField { field_name: "id".to_string(), field_type: "address".to_string(), field_index: 0, is_key: true },
            TableField { field_name: "n".to_string(), field_type: "u32".to_string(), field_index: 0, is_key: false },
            TableField { field_name: "slot".to_string(), field_type: "u8".to_string(), field_index: 1, is_key: true },
            TableField { field_name: "flags".to_string(), field_type: "vector<bool>".to_string(), field_index: 1, is_key: false },
        ],
        offchain: false,
    }
}

#[test]
fn keys_and_values_decode_by_position() {
    let t = sample_table();
    let keys = t.parse_table_keys(vec![vec![7u8; 32], vec![4]]).unwrap();
    assert_eq!(
        keys,
        vec![
            ("id".to_string(), scalar(MoveScalar::Address([7u8; 32]))),
            ("slot".to_string(), scalar(MoveScalar::U8(4))),
        ]
    );
    let values = t.parse_table_values(vec![vec![1, 0, 0, 0], vec![1, 1]]).unwrap();
    assert_eq!(
        values,
        vec![
            ("n".to_string(), scalar(MoveScalar::U32(1))),
            ("flags".to_string(), ParsedMoveValue::Vector(vec![MoveScalar::Bool(true)])),
        ]
    );
}

#[test]
fn field_count_mismatch_is_refused() {
    let t = sample_table();
    assert_eq!(t.parse_table_keys(vec![vec![4]]), Err(DecodeError::FieldCountMismatch));
    assert_eq!(t.parse_table_values(vec![]), Err(DecodeError::FieldCountMismatch));
    assert_eq!(t.parse_table_keys(vec![vec![7u8; 32], vec![4, 4]]), Err(DecodeError::Malformed));
}

#[test]
fn single_field_decoding() {
    let t = sample_table();
    let r = t.parse_table_field(&b"count".to_vec(), &b"u16".to_vec(), &[2, 1]).unwrap();
    assert_eq!(r, ("count".to_string(), scalar(MoveScalar::U16(258))));
}

#[test]
fn db_data_keeps_its_parts() {
    let d = DBData::new("n".to_string(), "u8".to_string(), scalar(MoveScalar::U8(1)), true);
    assert_eq!(d.column_name, "n");
    assert_eq!(d.column_type, "u8");
    assert_eq!(d.column_value, scalar(MoveScalar::U8(1)));
    assert!(d.is_primary_key);
}

#[test]
fn decodes_every_nested_vector_type() {
    let bools: Vec<Vec<bool>> = vec![vec![true], vec![], vec![false, true]];
    assert_eq!(
        decode("vector<vector<bool>>", &bcs::to_bytes(&bools).unwrap()),
        Ok(ParsedMoveValue::Nested(
            bools.iter().map(|w| w.iter().map(|b| MoveScalar::Bool(*b)).collect()).collect()
        ))
    );
    assert_eq!(
        decode("vector<vector<bool>>", &[1, 1, 1]),
        Ok(ParsedMoveValue::Nested(vec![vec![MoveScalar::Bool(true)]]))
    );
    let words: Vec<Vec<[u8; 32]>> = vec![vec![[3u8; 32], [4u8; 32]]];
    let bytes = bcs::to_bytes(&words).unwrap();
    assert_eq!(
        decode("vector<vector<u256>>", &bytes),
        Ok(ParsedMoveValue::Nested(vec![vec![MoveScalar::U256([3u8; 32]), MoveScalar::U256([4u8; 32])]]))
    );
    assert_eq!(
        decode("vector<vector<address>>", &bytes),
        Ok(ParsedMoveValue::Nested(vec![vec![MoveScalar::Address([3u8; 32]), MoveScalar::Address([4u8; 32])]]))
    );
}

#[test]
fn malformed_nested_vectors_are_refused() {
    assert_eq!(decode("vector<vector<bool>>", &[1, 5]), Err(DecodeError::Malformed));
    assert_eq!(decode("vector<vector<bool>>", &[1, 1, 2]), Err(DecodeError::Malformed));
    assert_eq!(decode("vector<vector<u256>>", &[1, 1, 0]), Err(DecodeError::Malformed));
    assert_eq!(decode("vector<vector<address>>", &[1, 0, 9]), Err(DecodeError::Malformed));
}

#[test]
fn nested_key_column_decodes_as_nested_value() {
    let t = TableMetadata {
        name: "t".to_string(),
        table_type: "component".to_string(),
        fields: vec![TableField {
            field_name: "grid".to_string(),
            field_type: "vector<vector<bool>>".to_string(),
            field_index: 0,
            is_key: true,
        }],
        offchain: false,
    };
    assert_eq!(
        t.parse_table_keys(vec![vec![1, 1, 1]]),
        Ok(vec![("grid".to_string(), ParsedMoveValue::Nested(vec![vec![MoveScalar::Bool(true)]]))])
    );
}
