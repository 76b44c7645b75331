//! FIX value types representing integral values.
//!
//! Every primitive integer width decodes with the same rules: the whole
//! input must be one decimal digit run (with an optional leading `'-'` for
//! the signed widths), leading zeros are tolerated, and a value outside
//! the width's range is an error detected by checked arithmetic, never by
//! wraparound.  Encoding always writes the canonical minimal-width
//! decimal form.

use crate::data_types::signed_decoded;
use crate::data_types::unsigned_decoded;
use crate::data_types::FixValue;
use crate::data_types::ParseErrorKind;
use crate::data_types::ParseResult;
use crate::wire_format::atoi;
use crate::wire_format::dec_repr;
use crate::wire_format::itos;
use crate::wire_format::lemma_digit_prefix_len;
use crate::wire_format::lemma_digit_prefix_len_all;
use crate::wire_format::u_atoi;
use crate::wire_format::u_dec_repr;
use crate::wire_format::u_itos;
use vstd::prelude::*;

verus! {

/// Decode a full-consumption unsigned value in `0 ..= max`.
pub(crate) fn parse_unsigned(input: &[u8], max: u64) -> (r: Result<u64, ParseErrorKind>)
    ensures
        match r {
            Ok(v) => unsigned_decoded(input@, max as int) == Some(v as int),
            Err(e) => unsigned_decoded(input@, max as int) is None && e
                == ParseErrorKind::UnsignedInteger,
        },
{
    proof {
        lemma_digit_prefix_len(input@);
        lemma_digit_prefix_len_all(input@);
        assert(input@.take(input@.len() as int) =~= input@);
    }
    match u_atoi(input, max) {
        Err(_) => Err(ParseErrorKind::UnsignedInteger),
        Ok((rem, v)) => {
            if rem.len() == 0 {
                Ok(v)
            } else {
                Err(ParseErrorKind::UnsignedInteger)
            }
        },
    }
}

/// Decode a full-consumption signed value in `min ..= max`.
pub(crate) fn parse_signed(input: &[u8], min: i64, max: i64) -> (r: Result<i64, ParseErrorKind>)
    requires
        min <= 0 <= max,
    ensures
        match r {
            Ok(v) => signed_decoded(input@, min as int, max as int) == Some(v as int),
            Err(e) => signed_decoded(input@, min as int, max as int) is None && e
                == ParseErrorKind::SignedInteger,
        },
{
    let ghost sign = input@.len() > 0 && input@[0] == 0x2d;
    let ghost rest = if sign {
        input@.drop_first()
    } else {
        input@
    };
    proof {
        lemma_digit_prefix_len(rest);
        lemma_digit_prefix_len_all(rest);
        assert(rest.take(rest.len() as int) =~= rest);
    }
    match atoi(input, min, max) {
        Err(_) => Err(ParseErrorKind::SignedInteger),
        Ok((rem, v)) => {
            if rem.len() == 0 {
                Ok(v)
            } else {
                Err(ParseErrorKind::SignedInteger)
            }
        },
    }
}

impl<'a> FixValue<'a, ParseErrorKind> for u8 {
    open spec fn decoded(input: Seq<u8>) -> Option<u8> {
        match unsigned_decoded(input, u8::MAX as int) {
            Some(v) => Some(v as u8),
            None => None,
        }
    }

    open spec fn decode_err(input: Seq<u8>) -> ParseErrorKind {
        ParseErrorKind::UnsignedInteger
    }

    open spec fn encoded(&self) -> Seq<u8> {
        u_dec_repr(*self as nat)
    }

    fn from_bytes(input: &'a [u8]) -> (r: ParseResult<Self, ParseErrorKind>) {
        match parse_unsigned(input, 0xFF) {
            Ok(v) => Ok(v as u8),
            Err(e) => Err(e),
        }
    }

    fn to_bytes(&self, buf: &mut [u8]) -> (r: Option<usize>) {
        u_itos(*self as u64, buf)
    }
}

impl<'a> FixValue<'a, ParseErrorKind> for u16 {
    open spec fn decoded(input: Seq<u8>) -> Option<u16> {
        match unsigned_decoded(input, u16::MAX as int) {
            Some(v) => Some(v as u16),
            None => None,
        }
    }

    open spec fn decode_err(input: Seq<u8>) -> ParseErrorKind {
        ParseErrorKind::UnsignedInteger
    }

    open spec fn encoded(&self) -> Seq<u8> {
        u_dec_repr(*self as nat)
    }

    fn from_bytes(input: &'a [u8]) -> (r: ParseResult<Self, ParseErrorKind>) {
        match parse_unsigned(input, 0xFFFF) {
            Ok(v) => Ok(v as u16),
            Err(e) => Err(e),
        }
    }

    fn to_bytes(&self, buf: &mut [u8]) -> (r: Option<usize>) {
        u_itos(*self as u64, buf)
    }
}

impl<'a> FixValue<'a, ParseErrorKind> for u32 {
    open spec fn decoded(input: Seq<u8>) -> Option<u32> {
        match unsigned_decoded(input, u32::MAX as int) {
            Some(v) => Some(v as u32),
            None => None,
        }
    }

    open spec fn decode_err(input: Seq<u8>) -> ParseErrorKind {
        ParseErrorKind::UnsignedInteger
    }

    open spec fn encoded(&self) -> Seq<u8> {
        u_dec_repr(*self as nat)
    }

    fn from_bytes(input: &'a [u8]) -> (r: ParseResult<Self, ParseErrorKind>) {
        match parse_unsigned(input, 0xFFFF_FFFF) {
            Ok(v) => Ok(v as u32),
            Err(e) => Err(e),
        }
    }

    fn to_bytes(&self, buf: &mut [u8]) -> (r: Option<usize>) {
        u_itos(*self as u64, buf)
    }
}

impl<'a> FixValue<'a, ParseErrorKind> for u64 {
    open spec fn decoded(input: Seq<u8>) -> Option<u64> {
        match unsigned_decoded(input, u64::MAX as int) {
            Some(v) => Some(v as u64),
            None => None,
        }
    }

    open spec fn decode_err(input: Seq<u8>) -> ParseErrorKind {
        ParseErrorKind::UnsignedInteger
    }

    open spec fn encoded(&self) -> Seq<u8> {
        u_dec_repr(*self as nat)
    }

    fn from_bytes(input: &'a [u8]) -> (r: ParseResult<Self, ParseErrorKind>) {
        parse_unsigned(input, u64::MAX)
    }

    fn to_bytes(&self, buf: &mut [u8]) -> (r: Option<usize>) {
        u_itos(*self, buf)
    }
}

impl<'a> FixValue<'a, ParseErrorKind> for i8 {
    open spec fn decoded(input: Seq<u8>) -> Option<i8> {
        match signed_decoded(input, i8::MIN as int, i8::MAX as int) {
            Some(v) => Some(v as i8),
            None => None,
        }
    }

    open spec fn decode_err(input: Seq<u8>) -> ParseErrorKind {
        ParseErrorKind::SignedInteger
    }

    open spec fn encoded(&self) -> Seq<u8> {
        dec_repr(*self as int)
    }

    fn from_bytes(input: &'a [u8]) -> (r: ParseResult<Self, ParseErrorKind>) {
        match parse_signed(input, -0x80, 0x7F) {
            Ok(v) => Ok(v as i8),
            Err(e) => Err(e),
        }
    }

    fn to_bytes(&self, buf: &mut [u8]) -> (r: Option<usize>) {
        itos(*self as i64, buf)
    }
}

impl<'a> FixValue<'a, ParseErrorKind> for i16 {
    open spec fn decoded(input: Seq<u8>) -> Option<i16> {
        match signed_decoded(input, i16::MIN as int, i16::MAX as int) {
            Some(v) => Some(v as i16),
            None => None,
        }
    }

    open spec fn decode_err(input: Seq<u8>) -> ParseErrorKind {
        ParseErrorKind::SignedInteger
    }

    open spec fn encoded(&self) -> Seq<u8> {
        dec_repr(*self as int)
    }

    fn from_bytes(input: &'a [u8]) -> (r: ParseResult<Self, ParseErrorKind>) {
        match parse_signed(input, -0x8000, 0x7FFF) {
            Ok(v) => Ok(v as i16),
            Err(e) => Err(e),
        }
    }

    fn to_bytes(&self, buf: &mut [u8]) -> (r: Option<usize>) {
        itos(*self as i64, buf)
    }
}

impl<'a> FixValue<'a, ParseErrorKind> for i32 {
    open spec fn decoded(input: Seq<u8>) -> Option<i32> {
        match signed_decoded(input, i32::MIN as int, i32::MAX as int) {
            Some(v) => Some(v as i32),
            None => None,
        }
    }

    open spec fn decode_err(input: Seq<u8>) -> ParseErrorKind {
        ParseErrorKind::SignedInteger
    }

    open spec fn encoded(&self) -> Seq<u8> {
        dec_repr(*self as int)
    }

    fn from_bytes(input: &'a [u8]) -> (r: ParseResult<Self, ParseErrorKind>) {
        match parse_signed(input, -0x8000_0000, 0x7FFF_FFFF) {
            Ok(v) => Ok(v as i32),
            Err(e) => Err(e),
        }
    }

    fn to_bytes(&self, buf: &mut [u8]) -> (r: Option<usize>) {
        itos(*self as i64, buf)
    }
}

impl<'a> FixValue<'a, ParseErrorKind> for i64 {
    open spec fn decoded(input: Seq<u8>) -> Option<i64> {
        match signed_decoded(input, i64::MIN as int, i64::MAX as int) {
            Some(v) => Some(v as i64),
            None => None,
        }
    }

    open spec fn decode_err(input: Seq<u8>) -> ParseErrorKind {
        ParseErrorKind::SignedInteger
    }

    open spec fn encoded(&self) -> Seq<u8> {
        dec_repr(*self as int)
    }

    fn from_bytes(input: &'a [u8]) -> (r: ParseResult<Self, ParseErrorKind>) {
        parse_signed(input, i64::MIN, i64::MAX)
    }

    fn to_bytes(&self, buf: &mut [u8]) -> (r: Option<usize>) {
        itos(*self, buf)
    }
}

} // verus!
