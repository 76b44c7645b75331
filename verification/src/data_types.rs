//! De/serialization between FIX value types and native types.
//!
//! Each FIX message is an ASCII byte stream made up of key-value pairs
//! with a delimiter in between (examples use `|` instead of the default
//! ASCII SOH):
//!
//! ```text
//! 8=FIX.4.4|9=12|...
//! ```
//!
//! The type associated with each key is known ahead of time, and it is the
//! responsibility of the [`FixValue`] trait to convert between the raw
//! value bytes and native types.  During deserialization the byte slice
//! given to [`FixValue::from_bytes`] holds exactly the bytes between the
//! key-value separator (`=`) and the tag delimiter; every byte must be
//! used, and an unconsumed remainder is an error.  During serialization,
//! [`FixValue::to_bytes`] writes the canonical wire bytes into the front
//! of the caller's buffer and returns how many were written; on a buffer
//! that is too short it returns `None`, and the buffer contents must then
//! be discarded, not read as a truncated prefix.

pub mod fields;
pub mod ints;
pub mod slice;
pub mod string;

use crate::wire_format::all_digits;
use crate::wire_format::digits_val;
use vstd::prelude::*;

verus! {

/// Error kinds reported when parsing FIX value bytes into native types.
#[derive(Clone, Copy, Debug, Eq, PartialEq, Structural)]
pub enum ParseErrorKind {
    /// Error while deserializing an unsigned integer.
    UnsignedInteger,
    /// Error while deserializing a (potentially) signed integer.
    SignedInteger,
    /// Error while deserializing a byte slice into a UTF-8 string.
    String,
    /// A decoded value lies outside the range its field allows.
    OutOfRange,
    /// A tag number carries a forbidden leading zero.
    LeadingZero,
}

/// Result type for deserializing FIX values into native types.
pub type ParseResult<O, E = ParseErrorKind> = Result<O, E>;

/// What a full-consumption unsigned decimal decode of `input` yields for a
/// target range of `0 ..= max`: the value, or `None` when any byte is not
/// a digit, the input is empty, or the value is out of range.
pub open spec fn unsigned_decoded(input: Seq<u8>, max: int) -> Option<int> {
    if input.len() > 0 && all_digits(input) && digits_val(input) <= max {
        Some(digits_val(input))
    } else {
        None
    }
}

/// What a full-consumption signed decimal decode of `input` yields for a
/// target range of `min ..= max`: an optional leading `'-'`, then digits
/// through the end of the input.
pub open spec fn signed_decoded(input: Seq<u8>, min: int, max: int) -> Option<int> {
    let sign = input.len() > 0 && input[0] == 0x2d;
    let rest = if sign {
        input.drop_first()
    } else {
        input
    };
    if rest.len() > 0 && all_digits(rest) {
        let v = if sign {
            -digits_val(rest)
        } else {
            digits_val(rest)
        };
        if min <= v <= max {
            Some(v)
        } else {
            None
        }
    } else {
        None
    }
}

/// Round trip through the typed field layer, unsigned: the canonical
/// rendering of any in-range unsigned value decodes, with full
/// consumption, back to exactly that value.
pub proof fn lemma_unsigned_decoded_roundtrip(v: u64, max: int)
    requires
        v <= max,
    ensures
        unsigned_decoded(crate::wire_format::u_dec_repr(v as nat), max) == Some(v as int),
{
    crate::wire_format::lemma_u_dec_repr(v as nat);
}

/// Round trip through the typed field layer, signed: the canonical
/// rendering of any in-range signed value decodes, with full consumption,
/// back to exactly that value.
pub proof fn lemma_signed_decoded_roundtrip(v: i64, min: int, max: int)
    requires
        min <= v <= max,
    ensures
        signed_decoded(crate::wire_format::dec_repr(v as int), min, max) == Some(v as int),
{
    let s = crate::wire_format::dec_repr(v as int);
    if v >= 0 {
        crate::wire_format::lemma_u_dec_repr(v as nat);
        assert(s[0] != 0x2d);
    } else {
        let m = (-(v as int)) as nat;
        crate::wire_format::lemma_u_dec_repr(m);
        assert(s =~= seq![0x2du8] + crate::wire_format::u_dec_repr(m));
        assert(s[0] == 0x2d);
        assert(s.drop_first() =~= crate::wire_format::u_dec_repr(m));
    }
}

/// Base trait for de/serializing the "value" part of FIX's "tag-value"
/// format.  `Self::V`, the type's view, is the mathematical value that the
/// contracts speak about; the three specification functions pin down,
/// per implementing type, exactly which byte sequences decode, to what,
/// with which error otherwise, and what the canonical encoding of a value
/// is.  Serialization is infallible whenever the buffer is long enough.
pub trait FixValue<'a, E>: View + Sized {
    /// The value that the given wire bytes decode to, if they are valid.
    spec fn decoded(input: Seq<u8>) -> Option<Self::V>;

    /// The error reported when the given wire bytes are not valid.
    spec fn decode_err(input: Seq<u8>) -> E;

    /// The canonical wire bytes of this value.
    spec fn encoded(&self) -> Seq<u8>;

    /// Deserialize a FIX value type from a byte buffer holding all bytes
    /// between the key-value separator (`=`) and the tag delimiter.
    fn from_bytes(input: &'a [u8]) -> (r: ParseResult<Self, E>)
        ensures
            match r {
                Ok(v) => Self::decoded(input@) == Some(v@),
                Err(e) => Self::decoded(input@) is None && e == Self::decode_err(input@),
            },
    ;

    /// Encode a FIX value type into the front of a byte buffer, returning
    /// the number of bytes written, or `None` when the buffer is too
    /// short, in which case the buffer contents are unspecified.
    fn to_bytes(&self, buf: &mut [u8]) -> (r: Option<usize>)
        ensures
            final(buf)@.len() == old(buf)@.len(),
            match r {
                Some(n) => {
                    &&& n == self.encoded().len()
                    &&& n <= old(buf)@.len()
                    &&& final(buf)@.take(n as int) == self.encoded()
                    &&& final(buf)@.skip(n as int) == old(buf)@.skip(n as int)
                },
                None => old(buf)@.len() < self.encoded().len(),
            },
    ;
}

} // verus!
