//! Cross-cutting properties of the codec: round trips at every width
//! boundary, leading-zero tolerance, and overflow at every boundary.

use fixity_core::data_types::{FixValue, ParseErrorKind};
use fixity_core::wire_format::{atoi, itos, u_atoi, u_itos};

fn unsigned_roundtrip(v: u64) {
    let buffer = &mut [0u8; 20][..];
    let n = u_itos(v, buffer).unwrap();
    assert_eq!(u_atoi(&buffer[..n], u64::MAX), Ok((&b""[..], v)));
}

fn signed_roundtrip(v: i64) {
    let buffer = &mut [0u8; 20][..];
    let n = itos(v, buffer).unwrap();
    assert_eq!(atoi(&buffer[..n], i64::MIN, i64::MAX), Ok((&b""[..], v)));
    if v >= 0 {
        assert!(buffer[0] != b'-');
    }
    if n > 1 && v >= 0 {
        assert!(buffer[0] != b'0');
    }
}

#[test]
fn roundtrip_unsigned_boundaries() {
    for v in [0, 1, 9, 10, 99, 100, 255, 256, 65535, 65536, 4294967295, 4294967296, u64::MAX] {
        unsigned_roundtrip(v);
    }
}

#[test]
fn roundtrip_signed_boundaries() {
    for v in [
        0,
        1,
        -1,
        9,
        -10,
        127,
        -128,
        32767,
        -32768,
        2147483647,
        -2147483648,
        i64::MAX,
        i64::MIN,
    ] {
        signed_roundtrip(v);
    }
}

#[test]
fn roundtrip_through_fix_value() {
    let v: u16 = 65535;
    let buffer = &mut [0u8; 5][..];
    assert_eq!(v.to_bytes(buffer), Some(5));
    let back: u16 = FixValue::from_bytes(&buffer[..5]).unwrap();
    assert_eq!(back, v);

    let v: i32 = -2147483648;
    let buffer = &mut [0u8; 11][..];
    assert_eq!(v.to_bytes(buffer), Some(11));
    assert_eq!(buffer, b"-2147483648");
    let back: i32 = FixValue::from_bytes(&buffer[..11]).unwrap();
    assert_eq!(back, v);
}

#[test]
fn leading_zero_tolerance() {
    assert_eq!(u_atoi(b"00023", u64::MAX), Ok((&b""[..], 23)));
    assert_eq!(u_atoi(b"23", u64::MAX), Ok((&b""[..], 23)));
    assert_eq!(atoi(b"-00023", i64::MIN, i64::MAX), Ok((&b""[..], -23)));

    let a: u32 = FixValue::from_bytes(b"00023").unwrap();
    let b: u32 = FixValue::from_bytes(b"23").unwrap();
    assert_eq!(a, b);
    assert_eq!(a, 23);
}

#[test]
fn overflow_at_every_width_boundary() {
    let ok: Result<u8, _> = FixValue::from_bytes(b"255");
    assert_eq!(ok, Ok(255));
    let over: Result<u8, _> = FixValue::from_bytes(b"256");
    assert_eq!(over, Err(ParseErrorKind::UnsignedInteger));

    let over: Result<u16, _> = FixValue::from_bytes(b"65536");
    assert!(over.is_err());
    let over: Result<u32, _> = FixValue::from_bytes(b"4294967296");
    assert!(over.is_err());
    let ok: Result<u64, _> = FixValue::from_bytes(b"18446744073709551615");
    assert_eq!(ok, Ok(u64::MAX));
    let over: Result<u64, _> = FixValue::from_bytes(b"18446744073709551616");
    assert!(over.is_err());

    let ok: Result<i8, _> = FixValue::from_bytes(b"127");
    assert_eq!(ok, Ok(127));
    let over: Result<i8, _> = FixValue::from_bytes(b"128");
    assert_eq!(over, Err(ParseErrorKind::SignedInteger));
    let ok: Result<i8, _> = FixValue::from_bytes(b"-128");
    assert_eq!(ok, Ok(-128));
    let over: Result<i8, _> = FixValue::from_bytes(b"-129");
    assert!(over.is_err());

    let over: Result<i16, _> = FixValue::from_bytes(b"32768");
    assert!(over.is_err());
    let over: Result<i32, _> = FixValue::from_bytes(b"-2147483649");
    assert!(over.is_err());
    let ok: Result<i64, _> = FixValue::from_bytes(b"-9223372036854775808");
    assert_eq!(ok, Ok(i64::MIN));
    let over: Result<i64, _> = FixValue::from_bytes(b"-9223372036854775809");
    assert!(over.is_err());
    let ok: Result<i64, _> = FixValue::from_bytes(b"9223372036854775807");
    assert_eq!(ok, Ok(i64::MAX));
    let over: Result<i64, _> = FixValue::from_bytes(b"9223372036854775808");
    assert!(over.is_err());
}

#[test]
fn unconsumed_input_is_an_error() {
    let trailing: Result<u8, _> = FixValue::from_bytes(b"12|");
    assert_eq!(trailing, Err(ParseErrorKind::UnsignedInteger));
    let trailing: Result<i8, _> = FixValue::from_bytes(b"1x");
    assert_eq!(trailing, Err(ParseErrorKind::SignedInteger));
}

#[test]
fn sign_alone_is_an_error() {
    let sign: Result<i64, _> = FixValue::from_bytes(b"-");
    assert_eq!(sign, Err(ParseErrorKind::SignedInteger));
}
