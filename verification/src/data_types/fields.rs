//! FIX field types with rules of their own beyond a plain integer width.
//!
//! `Length`, `SeqNum` and `NumInGroup` share the unsigned integer rules
//! and are distinguished only by their semantic role; `DayOfMonth` adds a
//! range check, and `TagNum` adds the no-leading-zero rule of tag numbers.

use crate::data_types::ints::parse_unsigned;
use crate::data_types::unsigned_decoded;
use crate::data_types::FixValue;
use crate::data_types::ParseErrorKind;
use crate::data_types::ParseResult;
use crate::wire_format::u_dec_repr;
use crate::wire_format::u_itos;
use vstd::prelude::*;

verus! {

/// A day of the month, constrained to `1 ..= 31`.  A decoded value
/// outside that range is an error, not a clamp.
#[derive(Clone, Copy, Debug, Eq, PartialEq, Structural)]
pub struct DayOfMonth {
    /// The day, in `1 ..= 31` for every decoded value.
    pub day: u8,
}

impl DayOfMonth {
    /// The range every decoded `DayOfMonth` lies in.
    pub open spec fn wf(self) -> bool {
        1 <= self.day <= 31
    }
}

impl View for DayOfMonth {
    type V = DayOfMonth;

    open spec fn view(&self) -> DayOfMonth {
        *self
    }
}

impl<'a> FixValue<'a, ParseErrorKind> for DayOfMonth {
    open spec fn decoded(input: Seq<u8>) -> Option<DayOfMonth> {
        match unsigned_decoded(input, u8::MAX as int) {
            Some(v) => {
                if 1 <= v <= 31 {
                    Some(DayOfMonth { day: v as u8 })
                } else {
                    None
                }
            },
            None => None,
        }
    }

    open spec fn decode_err(input: Seq<u8>) -> ParseErrorKind {
        if unsigned_decoded(input, u8::MAX as int) is Some {
            ParseErrorKind::OutOfRange
        } else {
            ParseErrorKind::UnsignedInteger
        }
    }

    open spec fn encoded(&self) -> Seq<u8> {
        u_dec_repr(self.day as nat)
    }

    fn from_bytes(input: &'a [u8]) -> (r: ParseResult<Self, ParseErrorKind>) {
        match parse_unsigned(input, 0xFF) {
            Ok(v) => {
                if 1 <= v && v <= 31 {
                    Ok(DayOfMonth { day: v as u8 })
                } else {
                    Err(ParseErrorKind::OutOfRange)
                }
            },
            Err(e) => Err(e),
        }
    }

    fn to_bytes(&self, buf: &mut [u8]) -> (r: Option<usize>) {
        u_itos(self.day as u64, buf)
    }
}

/// A tag number: an unsigned 16-bit decimal run that must not begin with
/// a leading zero, so the tag `0` itself is rejected on decode.
#[derive(Clone, Copy, Debug, Eq, PartialEq, Structural)]
pub struct TagNum {
    /// The tag number.
    pub value: u16,
}

impl View for TagNum {
    type V = TagNum;

    open spec fn view(&self) -> TagNum {
        *self
    }
}

impl<'a> FixValue<'a, ParseErrorKind> for TagNum {
    open spec fn decoded(input: Seq<u8>) -> Option<TagNum> {
        if input.len() > 0 && input[0] == 0x30 {
            None
        } else {
            match unsigned_decoded(input, u16::MAX as int) {
                Some(v) => Some(TagNum { value: v as u16 }),
                None => None,
            }
        }
    }

    open spec fn decode_err(input: Seq<u8>) -> ParseErrorKind {
        if input.len() > 0 && input[0] == 0x30 {
            ParseErrorKind::LeadingZero
        } else {
            ParseErrorKind::UnsignedInteger
        }
    }

    open spec fn encoded(&self) -> Seq<u8> {
        u_dec_repr(self.value as nat)
    }

    fn from_bytes(input: &'a [u8]) -> (r: ParseResult<Self, ParseErrorKind>) {
        if input.len() >= 1 && input[0] == 0x30 {
            return Err(ParseErrorKind::LeadingZero);
        }
        match parse_unsigned(input, 0xFFFF) {
            Ok(v) => Ok(TagNum { value: v as u16 }),
            Err(e) => Err(e),
        }
    }

    fn to_bytes(&self, buf: &mut [u8]) -> (r: Option<usize>) {
        u_itos(self.value as u64, buf)
    }
}

/// A byte count, as transmitted ahead of a data field.
#[derive(Clone, Copy, Debug, Eq, PartialEq, Structural)]
pub struct Length {
    /// The number of bytes announced.
    pub value: u64,
}

impl View for Length {
    type V = Length;

    open spec fn view(&self) -> Length {
        *self
    }
}

impl<'a> FixValue<'a, ParseErrorKind> for Length {
    open spec fn decoded(input: Seq<u8>) -> Option<Length> {
        match unsigned_decoded(input, u64::MAX as int) {
            Some(v) => Some(Length { value: v as u64 }),
            None => None,
        }
    }

    open spec fn decode_err(input: Seq<u8>) -> ParseErrorKind {
        ParseErrorKind::UnsignedInteger
    }

    open spec fn encoded(&self) -> Seq<u8> {
        u_dec_repr(self.value as nat)
    }

    fn from_bytes(input: &'a [u8]) -> (r: ParseResult<Self, ParseErrorKind>) {
        match parse_unsigned(input, u64::MAX) {
            Ok(v) => Ok(Length { value: v }),
            Err(e) => Err(e),
        }
    }

    fn to_bytes(&self, buf: &mut [u8]) -> (r: Option<usize>) {
        u_itos(self.value, buf)
    }
}

/// A message sequence number.
#[derive(Clone, Copy, Debug, Eq, PartialEq, Structural)]
pub struct SeqNum {
    /// The sequence number.
    pub value: u64,
}

impl View for SeqNum {
    type V = SeqNum;

    open spec fn view(&self) -> SeqNum {
        *self
    }
}

impl<'a> FixValue<'a, ParseErrorKind> for SeqNum {
    open spec fn decoded(input: Seq<u8>) -> Option<SeqNum> {
        match unsigned_decoded(input, u64::MAX as int) {
            Some(v) => Some(SeqNum { value: v as u64 }),
            None => None,
        }
    }

    open spec fn decode_err(input: Seq<u8>) -> ParseErrorKind {
        ParseErrorKind::UnsignedInteger
    }

    open spec fn encoded(&self) -> Seq<u8> {
        u_dec_repr(self.value as nat)
    }

    fn from_bytes(input: &'a [u8]) -> (r: ParseResult<Self, ParseErrorKind>) {
        match parse_unsigned(input, u64::MAX) {
            Ok(v) => Ok(SeqNum { value: v }),
            Err(e) => Err(e),
        }
    }

    fn to_bytes(&self, buf: &mut [u8]) -> (r: Option<usize>) {
        u_itos(self.value, buf)
    }
}

/// The number of entries in a repeating group.
#[derive(Clone, Copy, Debug, Eq, PartialEq, Structural)]
pub struct NumInGroup {
    /// The number of entries.
    pub value: u64,
}

impl View for NumInGroup {
    type V = NumInGroup;

    open spec fn view(&self) -> NumInGroup {
        *self
    }
}

impl<'a> FixValue<'a, ParseErrorKind> for NumInGroup {
    open spec fn decoded(input: Seq<u8>) -> Option<NumInGroup> {
        match unsigned_decoded(input, u64::MAX as int) {
            Some(v) => Some(NumInGroup { value: v as u64 }),
            None => None,
        }
    }

    open spec fn decode_err(input: Seq<u8>) -> ParseErrorKind {
        ParseErrorKind::UnsignedInteger
    }

    open spec fn encoded(&self) -> Seq<u8> {
        u_dec_repr(self.value as nat)
    }

    fn from_bytes(input: &'a [u8]) -> (r: ParseResult<Self, ParseErrorKind>) {
        match parse_unsigned(input, u64::MAX) {
            Ok(v) => Ok(NumInGroup { value: v }),
            Err(e) => Err(e),
        }
    }

    fn to_bytes(&self, buf: &mut [u8]) -> (r: Option<usize>) {
        u_itos(self.value, buf)
    }
}

} // verus!
