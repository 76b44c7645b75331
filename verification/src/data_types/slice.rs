//! FIX value types for string and raw byte slices.
//!
//! Both are zero-copy: decoding borrows the value from the input buffer,
//! and encoding copies the value's bytes into the front of the caller's
//! buffer.  Note that according to the FIX data type definitions a string
//! must not contain the delimiter byte; that is not checked here, because
//! the tag splitter can never produce such a value slice — checking it
//! again would reject nothing.  The delimiter-aware types live in
//! [`crate::data_types::string`].

use crate::data_types::FixValue;
use crate::data_types::ParseErrorKind;
use crate::data_types::ParseResult;
use vstd::prelude::*;
use vstd::string::StringSliceAdditionalSpecFns;
use vstd::utf8::decode_utf8;
use vstd::utf8::encode_utf8;
use vstd::utf8::valid_utf8;

verus! {

/// Copy all of `src` into the front of `buf`, returning how many bytes
/// were written, or `None` when the buffer is too short, in which case the
/// buffer is untouched.
pub(crate) fn copy_bytes(src: &[u8], buf: &mut [u8]) -> (r: Option<usize>)
    ensures
        final(buf)@.len() == old(buf)@.len(),
        match r {
            Some(n) => {
                &&& n == src@.len()
                &&& n <= old(buf)@.len()
                &&& final(buf)@.take(n as int) == src@
                &&& final(buf)@.skip(n as int) == old(buf)@.skip(n as int)
            },
            None => old(buf)@.len() < src@.len() && final(buf)@ == old(buf)@,
        },
{
    let n = src.len();
    if buf.len() < n {
        proof {
            assert(buf@ =~= old(buf)@);
        }
        return None;
    }
    let mut j: usize = 0;
    while j < n
        invariant
            0 <= j <= n,
            n == src@.len(),
            n <= buf@.len(),
            buf@.len() == old(buf)@.len(),
            forall|k: int| 0 <= k < j ==> buf@[k] == src@[k],
            forall|k: int| j <= k < buf@.len() ==> buf@[k] == old(buf)@[k],
        decreases n - j,
    {
        buf[j] = src[j];
        j += 1;
    }
    proof {
        assert(buf@.take(n as int) =~= src@);
        assert(buf@.skip(n as int) =~= old(buf)@.skip(n as int));
    }
    Some(n)
}

/// Relies on `core::str::from_utf8`: it succeeds exactly on valid UTF-8
/// input, and the returned string slice views the same bytes.
#[verifier::external_body]
fn bytes_as_str<'a>(input: &'a [u8]) -> (r: Option<&'a str>)
    ensures
        match r {
            Some(s) => valid_utf8(input@) && s.spec_bytes() == input@,
            None => !valid_utf8(input@),
        },
{
    match core::str::from_utf8(input) {
        Ok(s) => Some(s),
        Err(_) => None,
    }
}

// While strings in FIX are required to be ASCII by the protocol
// definition, that is not always respected in practice, so any valid
// UTF-8 value is accepted here; users needing an alternate encoding can
// implement `FixValue` on a wrapper type.
impl<'a> FixValue<'a, ParseErrorKind> for &'a str {
    open spec fn decoded(input: Seq<u8>) -> Option<Seq<char>> {
        if valid_utf8(input) {
            Some(decode_utf8(input))
        } else {
            None
        }
    }

    open spec fn decode_err(input: Seq<u8>) -> ParseErrorKind {
        ParseErrorKind::String
    }

    open spec fn encoded(&self) -> Seq<u8> {
        encode_utf8(self@)
    }

    fn from_bytes(input: &'a [u8]) -> (r: ParseResult<Self, ParseErrorKind>) {
        match bytes_as_str(input) {
            Some(s) => {
                proof {
                    vstd::utf8::encode_utf8_decode_utf8(s@);
                }
                Ok(s)
            },
            None => Err(ParseErrorKind::String),
        }
    }

    fn to_bytes(&self, buf: &mut [u8]) -> (r: Option<usize>) {
        copy_bytes(self.as_bytes(), buf)
    }
}

impl<'a> FixValue<'a, ()> for &'a [u8] {
    open spec fn decoded(input: Seq<u8>) -> Option<Seq<u8>> {
        Some(input)
    }

    open spec fn decode_err(input: Seq<u8>) -> () {
        ()
    }

    open spec fn encoded(&self) -> Seq<u8> {
        self@
    }

    fn from_bytes(input: &'a [u8]) -> (r: ParseResult<Self, ()>) {
        Ok(input)
    }

    fn to_bytes(&self, buf: &mut [u8]) -> (r: Option<usize>) {
        copy_bytes(self, buf)
    }
}

} // verus!
