use sqlite_reader::error::Error;
use sqlite_reader::varint::{encode_varint, varint};

fn round_trip(value: u64, expected_len: usize) {
    let bytes = encode_varint(value);
    assert_eq!(bytes.len(), expected_len);
    let (decoded, consumed) = varint(&bytes).unwrap();
    assert_eq!(decoded, value);
    assert_eq!(consumed, expected_len);
}

#[test]
fn varint_round_trip_zero() {
    round_trip(0, 1);
}

#[test]
fn varint_round_trip_127() {
    round_trip(127, 1);
}

#[test]
fn varint_round_trip_128() {
    round_trip(128, 2);
}

#[test]
fn varint_round_trip_below_2_pow_21() {
    round_trip((1u64 << 21) - 1, 3);
}

#[test]
fn varint_round_trip_2_pow_21() {
    round_trip(1u64 << 21, 4);
}

#[test]
fn varint_round_trip_max_i64() {
    round_trip((1u64 << 63) - 1, 9);
}

#[test]
fn varint_single_byte_values() {
    let (v, n) = varint(&[0x07]).unwrap();
    assert_eq!((v, n), (7, 1));
}

#[test]
fn varint_two_bytes() {
    let (v, n) = varint(&[0x81, 0x00]).unwrap();
    assert_eq!((v, n), (128, 2));
}

#[test]
fn varint_overlong_encoding_accepted() {
    // no canonical-length validation: 0x80 0x01 also decodes to 1
    let (v, n) = varint(&[0x80, 0x01]).unwrap();
    assert_eq!((v, n), (1, 2));
}

#[test]
fn varint_nine_bytes_full_range() {
    let bytes = [0xff, 0xff, 0xff, 0xff, 0xff, 0xff, 0xff, 0xff, 0xff];
    let (v, n) = varint(&bytes).unwrap();
    assert_eq!(v, u64::MAX);
    assert_eq!(n, 9);
}

#[test]
fn varint_canonical_bytes() {
    assert_eq!(encode_varint(0), vec![0x00]);
    assert_eq!(encode_varint(127), vec![0x7f]);
    assert_eq!(encode_varint(128), vec![0x81, 0x00]);
    assert_eq!(encode_varint(300), vec![0x82, 0x2c]);
}

#[test]
fn varint_truncated_input_fails() {
    assert_eq!(varint(&[]), Err(Error::Truncated));
    assert_eq!(varint(&[0x80]), Err(Error::Truncated));
    assert_eq!(
        varint(&[0x80, 0x80, 0x80, 0x80, 0x80, 0x80, 0x80, 0x80]),
        Err(Error::Truncated)
    );
}
