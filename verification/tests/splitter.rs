//! Tests for the strict tag splitter.

use fixity_core::wire_format::{data_tag_delimited, tag_delimited, RawTag, WireErrorKind};

#[test]
fn tag_delimited_simple() {
    assert_eq!(
        tag_delimited(b'|', b"8=FIX.4.4|"),
        Ok((
            &b""[..],
            RawTag {
                tag: 8,
                value: b"FIX.4.4"
            }
        ))
    )
}

#[test]
fn tag_delimited_missing_delimiter() {
    assert!(tag_delimited(b'|', b"8=FIX.4.4").is_err())
}

#[test]
fn tag_delimited_missing_delimiter_kind() {
    assert_eq!(
        tag_delimited(b'|', b"8=FIX.4.4"),
        Err(WireErrorKind::MissingDelimiter)
    );
}

#[test]
fn tag_delimited_empty_value() {
    assert_eq!(tag_delimited(b'|', b"8=|"), Err(WireErrorKind::EmptyValue));
    assert_eq!(tag_delimited(b'|', b"8="), Err(WireErrorKind::EmptyValue));
}

#[test]
fn tag_delimited_tag_strictness() {
    assert_eq!(
        tag_delimited(b'|', b"012=a|"),
        Err(WireErrorKind::InvalidTagNumber)
    );
    assert_eq!(
        tag_delimited(b'|', b"0=a|"),
        Err(WireErrorKind::InvalidTagNumber)
    );
    assert_eq!(
        tag_delimited(b'|', b"1234=a|"),
        Ok((
            &b""[..],
            RawTag {
                tag: 1234,
                value: b"a"
            }
        ))
    );
    assert_eq!(
        tag_delimited(b'|', b"65536=a|"),
        Err(WireErrorKind::InvalidTagNumber)
    );
}

#[test]
fn tag_delimited_missing_equals() {
    assert_eq!(
        tag_delimited(b'|', b"8|FIX.4.4|"),
        Err(WireErrorKind::UnexpectedByte)
    );
}

#[test]
fn tag_delimited_remainder() {
    assert_eq!(
        tag_delimited(b'|', b"8=FIX.4.4|9=12|"),
        Ok((
            &b"9=12|"[..],
            RawTag {
                tag: 8,
                value: b"FIX.4.4"
            }
        ))
    );
}

#[test]
fn data_delimited_simple() {
    assert_eq!(
        data_tag_delimited(b'|', 7, b"8=FIX.4.4|"),
        Ok((
            &b""[..],
            RawTag {
                tag: 8,
                value: b"FIX.4.4"
            }
        ))
    )
}

#[test]
fn data_delimited_improper_size() {
    assert!(data_tag_delimited(b'|', 6, b"8=FIX.4.4|").is_err());
    assert!(data_tag_delimited(b'|', 8, b"8=FIX.4.4|").is_err());
}

#[test]
fn data_delimited_missing_delimiter() {
    assert!(data_tag_delimited(b'|', 7, b"8=FIX.4.4").is_err())
}

#[test]
fn data_delimited_value_may_hold_delimiter() {
    assert_eq!(
        data_tag_delimited(b'|', 3, b"25=||||"),
        Ok((
            &b""[..],
            RawTag {
                tag: 25,
                value: b"|||"
            }
        ))
    );
}

#[test]
fn tag_soh_default_delimiter() {
    let message = &[0x38, 0x3d, 0x41, 0x01, 0x39, 0x3d, 0x42, 0x01][..];
    let (rem, parsed) = fixity_core::wire_format::tag(message).unwrap();
    assert_eq!(parsed, RawTag { tag: 8, value: b"A" });
    let (rem, parsed) = fixity_core::wire_format::tag(rem).unwrap();
    assert_eq!(parsed, RawTag { tag: 9, value: b"B" });
    assert!(rem.is_empty());
}

#[test]
fn data_tag_soh_default_delimiter() {
    let message = &[0x39, 0x3d, 0x01, 0x01, 0x01, 0x01][..];
    let (rem, parsed) = fixity_core::wire_format::data_tag(message, 3).unwrap();
    assert_eq!(
        parsed,
        RawTag {
            tag: 9,
            value: &[0x01, 0x01, 0x01]
        }
    );
    assert!(rem.is_empty());
}
