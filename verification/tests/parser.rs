//! Tests for the lenient tag splitter.

use fixity_core::wire_parser::{atoi, data_delimited, delimited, Tag};
use fixity_core::wire_format::WireErrorKind;

#[test]
fn basic_atoi() {
    let bytes = &b"1234"[..];
    assert_eq!(atoi(bytes), 1234);
}

#[test]
fn delimited_simple() {
    let message = "8=FIX.4.4|".as_bytes();
    let (_, tag) = delimited(b'|', message).unwrap();
    assert_eq!(
        tag,
        Tag {
            tag: 8,
            value: "FIX.4.4".as_bytes()
        }
    );
}

#[test]
fn delimited_accepts_leading_zero_tags() {
    let (_, tag) = delimited(b'|', b"012=a|").unwrap();
    assert_eq!(tag, Tag { tag: 12, value: b"a" });

    let (_, tag) = delimited(b'|', b"0=a|").unwrap();
    assert_eq!(tag, Tag { tag: 0, value: b"a" });
}

#[test]
fn delimited_rejects_tag_overflow() {
    assert_eq!(
        delimited(b'|', b"65536=a|"),
        Err(WireErrorKind::InvalidTagNumber)
    );
}

#[test]
fn data_delimited_after_length_tag() {
    let message = "24=3|25=||||".as_bytes();
    let (rem, len_tag) = delimited(b'|', message).unwrap();

    assert_eq!(len_tag, Tag { tag: 24, value: b"3" });
    let len_str = std::str::from_utf8(len_tag.value).unwrap();
    let len: usize = len_str.parse().unwrap();

    let (_, data_tag) = data_delimited(len, b'|', rem).unwrap();
    assert_eq!(data_tag, Tag { tag: 25, value: b"|||" });
}

#[test]
fn data_tag_soh() {
    let message = &[50, 52, 61, 51, 0x01, 50, 53, 61, 0x01, 0x01, 0x01, 0x01][..];
    let (rem, len_tag) = fixity_core::wire_parser::tag(message).unwrap();

    assert_eq!(len_tag, Tag { tag: 24, value: b"3" });
    let len_str = std::str::from_utf8(len_tag.value).unwrap();
    let len: usize = len_str.parse().unwrap();

    let (_, data_tag) = fixity_core::wire_parser::data_tag(rem, len).unwrap();
    assert_eq!(
        data_tag,
        Tag {
            tag: 25,
            value: &[0x01, 0x01, 0x01]
        }
    );
}
