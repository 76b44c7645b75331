//! Tests for the streaming integer parsers.

use fixity_core::parsers::{atoi, u_atoi};
use fixity_core::wire_format::{byte, WireErrorKind};

#[test]
fn atoi_incomplete() {
    let bytes = b"1234";

    let parsed = atoi(bytes, i16::MIN as i64, i16::MAX as i64);
    assert_eq!(parsed, Err(WireErrorKind::Incomplete));
}

#[test]
fn atoi_complete() {
    let bytes = b"1234|";

    let (rem, val) = atoi(bytes, i16::MIN as i64, i16::MAX as i64).unwrap();
    let (rem, _) = byte(b'|', rem).unwrap();
    assert!(rem.is_empty());
    assert_eq!(val, 1234_i64);
}

#[test]
fn atoi_sign_then_end_is_incomplete() {
    assert_eq!(
        atoi(b"-", i64::MIN, i64::MAX),
        Err(WireErrorKind::Incomplete)
    );
    assert_eq!(
        atoi(b"-12", i64::MIN, i64::MAX),
        Err(WireErrorKind::Incomplete)
    );
    assert_eq!(atoi(b"-12|", i64::MIN, i64::MAX), Ok((&b"|"[..], -12)));
}

#[test]
fn u_atoi_incomplete_and_complete() {
    assert_eq!(u_atoi(b"", u8::MAX as u64), Err(WireErrorKind::Incomplete));
    assert_eq!(u_atoi(b"12", u8::MAX as u64), Err(WireErrorKind::Incomplete));
    assert_eq!(u_atoi(b"|12", u8::MAX as u64), Err(WireErrorKind::NoDigits));
    assert_eq!(u_atoi(b"12|", u8::MAX as u64), Ok((&b"|"[..], 12)));
    assert_eq!(u_atoi(b"256|", u8::MAX as u64), Err(WireErrorKind::Overflow));
}
