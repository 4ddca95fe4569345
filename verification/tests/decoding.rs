//! The typed value decoder and its inverse constructions, on concrete
//! buffers.

use frnsc_liveregistry_rs::value::decode_value;
use frnsc_liveregistry_rs::value::encode_binary;
use frnsc_liveregistry_rs::value::encode_expandable_text;
use frnsc_liveregistry_rs::value::encode_text;
use frnsc_liveregistry_rs::value::encode_text_list;
use frnsc_liveregistry_rs::value::encode_u32_le;
use frnsc_liveregistry_rs::value::encode_u64_le;
use frnsc_liveregistry_rs::value::encode_value;
use frnsc_liveregistry_rs::value::REG_BINARY;
use frnsc_liveregistry_rs::value::REG_DWORD;
use frnsc_liveregistry_rs::value::REG_EXPAND_SZ;
use frnsc_liveregistry_rs::value::REG_MULTI_SZ;
use frnsc_liveregistry_rs::value::REG_QWORD;
use frnsc_liveregistry_rs::value::REG_SZ;
use frnsc_liveregistry_rs::RegError;
use frnsc_liveregistry_rs::TypedValue;

fn units_to_bytes(units: &[u16]) -> Vec<u8> {
    let mut bytes = Vec::new();
    for u in units {
        bytes.push((*u % 256) as u8);
        bytes.push((*u / 256) as u8);
    }
    bytes
}

#[test]
fn int32_decodes_little_endian() {
    let r = decode_value(&[0xEF, 0xBE, 0xAD, 0xDE], REG_DWORD);
    assert_eq!(r, Ok(TypedValue::Int32(0xDEADBEEF)));
}

#[test]
fn int32_round_trips() {
    let bytes = encode_u32_le(0xDEADBEEF);
    assert_eq!(bytes, vec![0xEF, 0xBE, 0xAD, 0xDE]);
    assert_eq!(decode_value(&bytes, REG_DWORD), Ok(TypedValue::Int32(0xDEADBEEF)));
}

#[test]
fn int64_round_trips() {
    let bytes = encode_u64_le(0x0123456789ABCDEF);
    assert_eq!(bytes, vec![0xEF, 0xCD, 0xAB, 0x89, 0x67, 0x45, 0x23, 0x01]);
    assert_eq!(decode_value(&bytes, REG_QWORD), Ok(TypedValue::Int64(0x0123456789ABCDEF)));
}

#[test]
fn int32_wrong_size_is_malformed() {
    assert_eq!(decode_value(&[], REG_DWORD), Err(RegError::MalformedData));
    assert_eq!(decode_value(&[1, 2, 3], REG_DWORD), Err(RegError::MalformedData));
    assert_eq!(decode_value(&[1, 2, 3, 4, 5], REG_DWORD), Err(RegError::MalformedData));
    assert_eq!(
        decode_value(&[1, 2, 3, 4, 5, 6, 7, 8], REG_DWORD),
        Err(RegError::MalformedData)
    );
}

#[test]
fn int64_wrong_size_is_malformed() {
    assert_eq!(decode_value(&[1, 2, 3, 4], REG_QWORD), Err(RegError::MalformedData));
    assert_eq!(
        decode_value(&[1, 2, 3, 4, 5, 6, 7, 8, 9], REG_QWORD),
        Err(RegError::MalformedData)
    );
}

#[test]
fn text_strips_terminator() {
    let bytes = units_to_bytes(&[0x55, 0x53, 0x45, 0x52, 0]);
    assert_eq!(
        decode_value(&bytes, REG_SZ),
        Ok(TypedValue::Text(String::from("USER")))
    );
}

#[test]
fn text_round_trips() {
    let bytes = encode_text("USER");
    assert_eq!(decode_value(&bytes, REG_SZ), Ok(TypedValue::Text(String::from("USER"))));
    let empty = encode_text("");
    assert_eq!(decode_value(&empty, REG_SZ), Ok(TypedValue::Text(String::new())));
}

#[test]
fn expandable_text_round_trips() {
    let bytes = encode_expandable_text("%APPDATA%\\x");
    assert_eq!(
        decode_value(&bytes, REG_EXPAND_SZ),
        Ok(TypedValue::ExpandableText(String::from("%APPDATA%\\x")))
    );
}

#[test]
fn text_list_splits_runs() {
    let bytes = units_to_bytes(&[0x61, 0, 0x62, 0x63, 0, 0]);
    assert_eq!(
        decode_value(&bytes, REG_MULTI_SZ),
        Ok(TypedValue::TextList(vec![String::from("a"), String::from("bc")]))
    );
}

#[test]
fn text_list_keeps_empty_run_before_more_data() {
    let bytes = units_to_bytes(&[0x61, 0, 0, 0x62, 0, 0]);
    assert_eq!(
        decode_value(&bytes, REG_MULTI_SZ),
        Ok(TypedValue::TextList(vec![
            String::from("a"),
            String::new(),
            String::from("b")
        ]))
    );
}

#[test]
fn text_list_of_only_terminators_is_empty() {
    let bytes = units_to_bytes(&[0, 0]);
    assert_eq!(decode_value(&bytes, REG_MULTI_SZ), Ok(TypedValue::TextList(vec![])));
    assert_eq!(decode_value(&[], REG_MULTI_SZ), Ok(TypedValue::TextList(vec![])));
}

#[test]
fn text_list_without_final_terminator_keeps_last_run() {
    let bytes = units_to_bytes(&[0x61, 0, 0x62]);
    assert_eq!(
        decode_value(&bytes, REG_MULTI_SZ),
        Ok(TypedValue::TextList(vec![String::from("a"), String::from("b")]))
    );
}

#[test]
fn text_list_round_trips() {
    let items = vec![String::from("a"), String::from("bc")];
    let bytes = encode_text_list(&items);
    assert_eq!(bytes, units_to_bytes(&[0x61, 0, 0x62, 0x63, 0, 0]));
    assert_eq!(decode_value(&bytes, REG_MULTI_SZ), Ok(TypedValue::TextList(items)));
}

#[test]
fn binary_round_trips() {
    let bytes = encode_binary(&[0, 1, 2, 0xFF]);
    assert_eq!(
        decode_value(&bytes, REG_BINARY),
        Ok(TypedValue::Binary(vec![0, 1, 2, 0xFF]))
    );
}

#[test]
fn every_tag_round_trips_through_encode_value() {
    let values = vec![
        TypedValue::Int32(0xDEADBEEF),
        TypedValue::Int64(42),
        TypedValue::Text(String::from("USER")),
        TypedValue::ExpandableText(String::from("%PATH%")),
        TypedValue::TextList(vec![String::from("left"), String::from("right")]),
        TypedValue::Binary(vec![9, 8, 7]),
    ];
    for v in values {
        let (bytes, tag) = encode_value(&v);
        assert_eq!(decode_value(&bytes, tag), Ok(v));
    }
}

#[test]
fn unknown_tag_is_unsupported() {
    assert_eq!(decode_value(&[1, 2, 3, 4], 0), Err(RegError::UnsupportedType));
    assert_eq!(decode_value(&[], 99), Err(RegError::UnsupportedType));
}
