//! Tests for the typed field layer.

use fixity_core::data_types::fields::{DayOfMonth, Length, NumInGroup, SeqNum, TagNum};
use fixity_core::data_types::string::{DataField, StringField};
use fixity_core::data_types::{FixValue, ParseErrorKind};
use fixity_core::SOH;

#[test]
fn u8_roundtrip() {
    let buffer = b"12";

    let value: u8 = FixValue::from_bytes(buffer).unwrap();
    assert_eq!(12, value);

    let buffer = &mut [0u8; 2][..];
    let bytes_written = FixValue::to_bytes(&value, buffer);
    assert_eq!(bytes_written, Some(2));
    assert_eq!(buffer, b"12");
}

#[test]
fn data_field_simple() {
    assert_eq!(DataField::parse(b"abc"), Ok(&b"abc"[..]));
    assert_eq!(DataField::parse(&[SOH][..]), Ok(&[SOH][..]));
    assert!(DataField::parse(b"").is_err());
}

#[test]
fn string_field_simple() {
    assert_eq!(StringField::parse(b"abc"), Ok(&b"abc"[..]));
    assert_eq!(StringField::parse(&[0x14][..]), Ok(&[0x14][..]));
    assert!(StringField::parse(&[0x14, SOH][..]).is_err());
}

#[test]
fn string_field_rejects_delimiter_data_field_accepts() {
    let with_soh = &[b'a', SOH, b'b'][..];
    assert!(StringField::parse(with_soh).is_err());
    assert_eq!(DataField::parse(with_soh), Ok(with_soh));

    assert_eq!(
        StringField::parse_delimited(b'|', b"a|b"),
        Err(fixity_core::wire_format::WireErrorKind::EmbeddedDelimiter)
    );
    assert_eq!(
        StringField::parse_delimited(b'|', b""),
        Err(fixity_core::wire_format::WireErrorKind::EmptyValue)
    );
    assert_eq!(StringField::parse_delimited(b'|', b"ab"), Ok(&b"ab"[..]));
}

#[test]
fn day_of_month_boundaries() {
    let one: DayOfMonth = FixValue::from_bytes(b"1").unwrap();
    assert_eq!(one, DayOfMonth { day: 1 });

    let last: DayOfMonth = FixValue::from_bytes(b"31").unwrap();
    assert_eq!(last, DayOfMonth { day: 31 });

    let zero: Result<DayOfMonth, _> = FixValue::from_bytes(b"0");
    assert_eq!(zero, Err(ParseErrorKind::OutOfRange));

    let next: Result<DayOfMonth, _> = FixValue::from_bytes(b"32");
    assert_eq!(next, Err(ParseErrorKind::OutOfRange));

    let wide: Result<DayOfMonth, _> = FixValue::from_bytes(b"300");
    assert_eq!(wide, Err(ParseErrorKind::UnsignedInteger));
}

#[test]
fn day_of_month_encode() {
    let day = DayOfMonth { day: 7 };
    let buffer = &mut [0u8; 2][..];
    assert_eq!(day.to_bytes(buffer), Some(1));
    assert_eq!(&buffer[..1], b"7");
}

#[test]
fn tag_num_field_rules() {
    let tag: TagNum = FixValue::from_bytes(b"1234").unwrap();
    assert_eq!(tag, TagNum { value: 1234 });

    let leading: Result<TagNum, _> = FixValue::from_bytes(b"012");
    assert_eq!(leading, Err(ParseErrorKind::LeadingZero));

    let zero: Result<TagNum, _> = FixValue::from_bytes(b"0");
    assert_eq!(zero, Err(ParseErrorKind::LeadingZero));

    let wide: Result<TagNum, _> = FixValue::from_bytes(b"65536");
    assert_eq!(wide, Err(ParseErrorKind::UnsignedInteger));

    let buffer = &mut [0u8; 4][..];
    assert_eq!(tag.to_bytes(buffer), Some(4));
    assert_eq!(buffer, b"1234");
}

#[test]
fn unsigned_role_fields_roundtrip() {
    let length: Length = FixValue::from_bytes(b"0042").unwrap();
    assert_eq!(length, Length { value: 42 });

    let seq: SeqNum = FixValue::from_bytes(b"7").unwrap();
    assert_eq!(seq, SeqNum { value: 7 });

    let group: NumInGroup = FixValue::from_bytes(b"3").unwrap();
    assert_eq!(group, NumInGroup { value: 3 });

    let buffer = &mut [0u8; 2][..];
    assert_eq!(length.to_bytes(buffer), Some(2));
    assert_eq!(buffer, b"42");

    let empty: Result<Length, _> = FixValue::from_bytes(b"");
    assert_eq!(empty, Err(ParseErrorKind::UnsignedInteger));
}

#[test]
fn str_field_roundtrip() {
    let parsed: &str = FixValue::from_bytes(b"FIX.4.4").unwrap();
    assert_eq!(parsed, "FIX.4.4");

    let invalid: Result<&str, _> = FixValue::from_bytes(&[0xFF, 0xFE][..]);
    assert_eq!(invalid, Err(ParseErrorKind::String));

    let buffer = &mut [0u8; 7][..];
    assert_eq!(parsed.to_bytes(buffer), Some(7));
    assert_eq!(buffer, b"FIX.4.4");

    let short = &mut [0u8; 3][..];
    assert_eq!(parsed.to_bytes(short), None);
}

#[test]
fn bytes_field_roundtrip() {
    let parsed: &[u8] = FixValue::from_bytes(&[1, 2, 3][..]).unwrap();
    assert_eq!(parsed, &[1, 2, 3][..]);

    let buffer = &mut [0u8; 5][..];
    assert_eq!(parsed.to_bytes(buffer), Some(3));
    assert_eq!(&buffer[..3], &[1, 2, 3][..]);
    assert_eq!(&buffer[3..], &[0, 0][..]);
}
