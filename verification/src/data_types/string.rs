//! FIX field types representing string- and byte-like values.

use crate::wire_format::WireErrorKind;
use vstd::prelude::*;

verus! {

/// `s` holds the byte `b` somewhere.
pub open spec fn contains_byte(s: Seq<u8>, b: u8) -> bool {
    exists|k: int| 0 <= k < s.len() && s[k] == b
}

/// A field containing raw data with no format or content restrictions.
/// Data fields are always immediately preceded by a length field giving
/// the number of bytes of the value (up to but not including the
/// terminating delimiter).
///
/// Caution: the value of one of these fields may contain the delimiter
/// byte, since the length, not the delimiter, bounds it on the wire.
pub struct DataField;

impl DataField {
    /// Accept any non-empty payload verbatim, without copying.
    pub fn parse<'a>(payload: &'a [u8]) -> (r: Result<&'a [u8], WireErrorKind>)
        ensures
            match r {
                Ok(v) => payload@.len() > 0 && v@ == payload@,
                Err(e) => payload@.len() == 0 && e == WireErrorKind::EmptyValue,
            },
    {
        if payload.len() == 0 {
            Err(WireErrorKind::EmptyValue)
        } else {
            Ok(payload)
        }
    }
}

/// Alpha-numeric free-format strings; can include any byte or punctuation
/// except the delimiter.  String fields are case sensitive.
pub struct StringField;

impl StringField {
    /// Accept a non-empty payload that nowhere holds the given delimiter
    /// byte, without copying.
    pub fn parse_delimited<'a>(delimiter: u8, payload: &'a [u8]) -> (r: Result<
        &'a [u8],
        WireErrorKind,
    >)
        ensures
            match r {
                Ok(v) => payload@.len() > 0 && !contains_byte(payload@, delimiter) && v@
                    == payload@,
                Err(e) => {
                    if payload@.len() == 0 {
                        e == WireErrorKind::EmptyValue
                    } else {
                        contains_byte(payload@, delimiter) && e == WireErrorKind::EmbeddedDelimiter
                    }
                },
            },
    {
        if payload.len() == 0 {
            return Err(WireErrorKind::EmptyValue);
        }
        let len = payload.len();
        let mut j: usize = 0;
        while j < len
            invariant
                0 <= j <= len,
                len == payload@.len(),
                forall|k: int| 0 <= k < j ==> payload@[k] != delimiter,
            decreases len - j,
        {
            if payload[j] == delimiter {
                return Err(WireErrorKind::EmbeddedDelimiter);
            }
            j += 1;
        }
        Ok(payload)
    }

    /// Accept a non-empty payload that nowhere holds the default (ASCII
    /// SOH) delimiter byte.
    pub fn parse<'a>(payload: &'a [u8]) -> (r: Result<&'a [u8], WireErrorKind>)
        ensures
            match r {
                Ok(v) => payload@.len() > 0 && !contains_byte(payload@, crate::SOH) && v@
                    == payload@,
                Err(e) => {
                    if payload@.len() == 0 {
                        e == WireErrorKind::EmptyValue
                    } else {
                        contains_byte(payload@, crate::SOH) && e == WireErrorKind::EmbeddedDelimiter
                    }
                },
            },
    {
        StringField::parse_delimited(crate::SOH, payload)
    }
}

} // verus!
