use sqlite_reader::error::Error;
use sqlite_reader::record::{parse_payload, Value};

/// A synthetic single-column record: header is [2, code], then the body.
fn single(code: u8, body: &[u8]) -> Vec<u8> {
    let mut payload = vec![2u8, code];
    payload.extend_from_slice(body);
    payload
}

#[test]
fn code_0_is_null() {
    let row = parse_payload(&single(0, &[])).unwrap();
    assert_eq!(row, vec![Value::Null]);
}

#[test]
fn code_8_is_literal_zero() {
    let row = parse_payload(&single(8, &[])).unwrap();
    assert_eq!(row, vec![Value::Integer(0)]);
}

#[test]
fn code_9_is_literal_one() {
    let row = parse_payload(&single(9, &[])).unwrap();
    assert_eq!(row, vec![Value::Integer(1)]);
}

#[test]
fn literal_codes_consume_no_body() {
    // one trailing body byte stays unread: three literal columns need none
    let row = parse_payload(&[4, 0, 8, 9, 0x55]).unwrap();
    assert_eq!(
        row,
        vec![Value::Null, Value::Integer(0), Value::Integer(1)]
    );
}

#[test]
fn code_1_positive() {
    let row = parse_payload(&single(1, &[0x12])).unwrap();
    assert_eq!(row, vec![Value::Integer(0x12)]);
}

#[test]
fn code_1_negative() {
    let row = parse_payload(&single(1, &[0xff])).unwrap();
    assert_eq!(row, vec![Value::Integer(-1)]);
}

#[test]
fn code_5_sign_extends_48_bits() {
    let row = parse_payload(&single(5, &[0xff, 0xff, 0xff, 0xff, 0xff, 0xfe])).unwrap();
    assert_eq!(row, vec![Value::Integer(-2)]);
    let row = parse_payload(&single(5, &[0x80, 0, 0, 0, 0, 0])).unwrap();
    assert_eq!(row, vec![Value::Integer(-(1i64 << 47))]);
}

#[test]
fn code_6_full_64_bits() {
    let row = parse_payload(&single(6, &[0x80, 0, 0, 0, 0, 0, 0, 0])).unwrap();
    assert_eq!(row, vec![Value::Integer(i64::MIN)]);
}

#[test]
fn even_code_at_least_12_is_blob() {
    // code 16 -> blob of (16 - 12) / 2 = 2 bytes
    let row = parse_payload(&single(16, &[0xab, 0xcd])).unwrap();
    assert_eq!(row, vec![Value::Blob(vec![0xab, 0xcd])]);
}

#[test]
fn odd_code_at_least_13_is_text() {
    // code 19 -> text of (19 - 13) / 2 = 3 bytes
    let row = parse_payload(&single(19, b"abc")).unwrap();
    assert_eq!(row, vec![Value::Text(String::from("abc"))]);
}

#[test]
fn codes_10_and_11_fail() {
    assert_eq!(
        parse_payload(&single(10, &[])),
        Err(Error::ReservedSerialCode(10))
    );
    assert_eq!(
        parse_payload(&single(11, &[])),
        Err(Error::ReservedSerialCode(11))
    );
}

#[test]
fn truncated_body_fails() {
    // code 4 needs four body bytes; only two are there
    assert_eq!(parse_payload(&single(4, &[1, 2])), Err(Error::Truncated));
}

#[test]
fn truncated_header_fails() {
    // declared header length 5 exceeds the three bytes present
    assert_eq!(parse_payload(&[5, 0, 0]), Err(Error::Truncated));
}

#[test]
fn float_keeps_raw_bits() {
    let bits: u64 = 0x3ff0000000000000; // the bit pattern of 1.0
    let row = parse_payload(&single(7, &bits.to_be_bytes())).unwrap();
    assert_eq!(row, vec![Value::Float(bits)]);
}

#[test]
fn invalid_text_is_decoded_lossily() {
    // code 15 -> text of 1 byte; 0xff alone is not valid UTF-8
    let row = parse_payload(&single(15, &[0xff])).unwrap();
    match &row[0] {
        Value::Text(s) => assert_eq!(s, "\u{fffd}"),
        other => panic!("expected text, got {:?}", other),
    }
}

#[test]
fn value_text_renderings() {
    assert_eq!(Value::Null.text().unwrap(), "NULL");
    assert_eq!(Value::Integer(-42).text().unwrap(), "-42");
    assert_eq!(Value::Integer(0).text().unwrap(), "0");
    assert_eq!(Value::Blob(vec![1, 2, 3]).text().unwrap(), "[1, 2, 3]");
    assert_eq!(Value::Blob(vec![]).text().unwrap(), "[]");
    assert_eq!(Value::Text(String::from("hi")).text().unwrap(), "hi");
    assert!(Value::Float(0).text().is_none());
}
