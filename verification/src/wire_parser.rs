//! A lenient variant of the FIX tag splitter.
//!
//! This splitter differs from the strict one in [`crate::wire_format`] in
//! how it treats the tag number in front of a value: any run of digits is
//! accepted, leading zeros included, so the tag `0` is a valid decode here.
//! Whether tag numbers must be strictly positive has varied between
//! revisions of the wire format; both policies are kept, explicitly, and a
//! caller picks one by picking the module.  A tag digit run whose value
//! does not fit in 16 bits is still rejected: overflow is always an error,
//! never a silent wraparound.

use crate::wire_format::all_digits;
use crate::wire_format::digits_val;
use crate::wire_format::find_byte;
use crate::wire_format::lemma_digits_val_prefix_le;
use crate::wire_format::lemma_digits_val_step;
use crate::wire_format::lemma_find_byte;
use crate::wire_format::u_atoi;
use crate::wire_format::u_atoi_spec;
use crate::wire_format::WireErrorKind;
use vstd::prelude::*;
use vstd::slice::slice_subrange;

verus! {

/// Base FIX protocol tag/value pair.  The value borrows from the parsed
/// input buffer; no bytes are copied.
#[derive(Debug, PartialEq)]
pub struct Tag<'a> {
    /// Tag number for a FIX message.
    pub tag: u16,
    /// Unparsed data associated with a specific tag.
    pub value: &'a [u8],
}

/// Convert a slice of ASCII digits to an unsigned 16-bit integer.
///
/// Because FIX tag numbers are unsigned integers that fit in 16 bits, this
/// skips the validation and overflow checks of the full codec; the caller
/// must have established both, which the splitters below do.
pub fn atoi(slice: &[u8]) -> (value: u16)
    requires
        all_digits(slice@),
        digits_val(slice@) <= u16::MAX,
    ensures
        value == digits_val(slice@),
{
    let len = slice.len();
    let mut value: u16 = 0;
    let mut j: usize = 0;
    while j < len
        invariant
            0 <= j <= len,
            len == slice@.len(),
            all_digits(slice@),
            digits_val(slice@) <= u16::MAX,
            value == digits_val(slice@.take(j as int)),
        decreases len - j,
    {
        let b = slice[j];
        proof {
            lemma_digits_val_step(slice@, j as int);
            lemma_digits_val_prefix_le(slice@, j as int + 1);
            assert(slice@.take(slice@.len() as int) =~= slice@);
        }
        value = value * 10;
        value = value + (b - 0x30) as u16;
        j += 1;
    }
    proof {
        assert(slice@.take(len as int) =~= slice@);
    }
    value
}

/// What splitting one tag unit from the front of `s` yields under the
/// lenient tag rule: any non-empty digit run whose value fits in 16 bits
/// is a tag, leading zeros included; the rest is as in the strict
/// splitter.
pub open spec fn delimited_spec(s: Seq<u8>, delimiter: u8) -> Result<
    (Seq<u8>, u16, Seq<u8>),
    WireErrorKind,
> {
    match u_atoi_spec(s, 0xFFFF) {
        Err(_) => Err(WireErrorKind::InvalidTagNumber),
        Ok((after_tag, tag)) => {
            if after_tag.len() == 0 || after_tag[0] != 0x3d {
                Err(WireErrorKind::UnexpectedByte)
            } else {
                let rest = after_tag.drop_first();
                if rest.len() == 0 || rest[0] == delimiter {
                    Err(WireErrorKind::EmptyValue)
                } else {
                    match find_byte(rest, delimiter) {
                        None => Err(WireErrorKind::MissingDelimiter),
                        Some(p) => Ok((rest.skip(p + 1), tag as u16, rest.take(p))),
                    }
                }
            }
        },
    }
}

/// What splitting one fixed-length data unit from the front of `s` yields
/// under the lenient tag rule.
pub open spec fn data_delimited_spec(s: Seq<u8>, delimiter: u8, count: nat) -> Result<
    (Seq<u8>, u16, Seq<u8>),
    WireErrorKind,
> {
    match u_atoi_spec(s, 0xFFFF) {
        Err(_) => Err(WireErrorKind::InvalidTagNumber),
        Ok((after_tag, tag)) => {
            if after_tag.len() == 0 || after_tag[0] != 0x3d {
                Err(WireErrorKind::UnexpectedByte)
            } else {
                let rest = after_tag.drop_first();
                if rest.len() < count + 1 || rest[count as int] != delimiter {
                    Err(WireErrorKind::MissingDelimiter)
                } else {
                    Ok((rest.skip(count as int + 1), tag as u16, rest.take(count as int)))
                }
            }
        },
    }
}

/// Read a simple FIX tag using a custom delimiter.  Returns the unread
/// remainder and a struct containing the tag number and value bytes.
pub fn delimited<'a>(delimiter: u8, i: &'a [u8]) -> (r: Result<(&'a [u8], Tag<'a>), WireErrorKind>)
    ensures
        match r {
            Ok((rem, t)) => delimited_spec(i@, delimiter) == Ok::<
                (Seq<u8>, u16, Seq<u8>),
                WireErrorKind,
            >((rem@, t.tag, t.value@)),
            Err(e) => delimited_spec(i@, delimiter) == Err::<
                (Seq<u8>, u16, Seq<u8>),
                WireErrorKind,
            >(e),
        },
{
    let (after_tag, tag) = match read_tag_number(i) {
        Ok(x) => x,
        Err(e) => {
            return Err(e);
        },
    };
    if after_tag.len() == 0 || after_tag[0] != 0x3d {
        return Err(WireErrorKind::UnexpectedByte);
    }
    let rest = slice_subrange(after_tag, 1, after_tag.len());
    proof {
        assert(rest@ =~= after_tag@.drop_first());
        lemma_find_byte(rest@, delimiter);
    }
    let len = rest.len();
    let mut p: usize = 0;
    while p < len && rest[p] != delimiter
        invariant
            0 <= p <= len,
            len == rest@.len(),
            forall|k: int| 0 <= k < p ==> rest@[k] != delimiter,
        decreases len - p,
    {
        p += 1;
    }
    if p == 0 {
        return Err(WireErrorKind::EmptyValue);
    }
    if p == len {
        return Err(WireErrorKind::MissingDelimiter);
    }
    proof {
        assert(find_byte(rest@, delimiter) == Some(p as int));
    }
    let rem = slice_subrange(rest, p + 1, len);
    let value = slice_subrange(rest, 0, p);
    proof {
        assert(rem@ =~= rest@.skip(p as int + 1));
        assert(value@ =~= rest@.take(p as int));
    }
    Ok((rem, Tag { tag, value }))
}

/// Read a simple FIX tag using the default (ASCII SOH) delimiter.
pub fn tag<'a>(payload: &'a [u8]) -> (r: Result<(&'a [u8], Tag<'a>), WireErrorKind>)
    ensures
        match r {
            Ok((rem, t)) => delimited_spec(payload@, crate::SOH) == Ok::<
                (Seq<u8>, u16, Seq<u8>),
                WireErrorKind,
            >((rem@, t.tag, t.value@)),
            Err(e) => delimited_spec(payload@, crate::SOH) == Err::<
                (Seq<u8>, u16, Seq<u8>),
                WireErrorKind,
            >(e),
        },
{
    delimited(crate::SOH, payload)
}

/// Read a FIX fixed-length data tag using a custom delimiter.
///
/// In addition to the more common `<tag>=<value><delimiter>` format, FIX
/// tags can carry arbitrary bytes in data tags.  These are always preceded
/// by a tag declaring the payload length, because data tags may contain
/// the delimiter byte within them; `count` is that externally supplied
/// length.
pub fn data_delimited<'a>(count: usize, delimiter: u8, i: &'a [u8]) -> (r: Result<
    (&'a [u8], Tag<'a>),
    WireErrorKind,
>)
    ensures
        match r {
            Ok((rem, t)) => data_delimited_spec(i@, delimiter, count as nat) == Ok::<
                (Seq<u8>, u16, Seq<u8>),
                WireErrorKind,
            >((rem@, t.tag, t.value@)),
            Err(e) => data_delimited_spec(i@, delimiter, count as nat) == Err::<
                (Seq<u8>, u16, Seq<u8>),
                WireErrorKind,
            >(e),
        },
{
    let (after_tag, tag) = match read_tag_number(i) {
        Ok(x) => x,
        Err(e) => {
            return Err(e);
        },
    };
    if after_tag.len() == 0 || after_tag[0] != 0x3d {
        return Err(WireErrorKind::UnexpectedByte);
    }
    let rest = slice_subrange(after_tag, 1, after_tag.len());
    proof {
        assert(rest@ =~= after_tag@.drop_first());
    }
    if rest.len() <= count || rest[count] != delimiter {
        return Err(WireErrorKind::MissingDelimiter);
    }
    let rem = slice_subrange(rest, count + 1, rest.len());
    let value = slice_subrange(rest, 0, count);
    proof {
        assert(rem@ =~= rest@.skip(count as int + 1));
        assert(value@ =~= rest@.take(count as int));
    }
    Ok((rem, Tag { tag, value }))
}

/// Read a FIX fixed-length data tag delimited by the default (ASCII SOH)
/// delimiter.
pub fn data_tag<'a>(payload: &'a [u8], length: usize) -> (r: Result<
    (&'a [u8], Tag<'a>),
    WireErrorKind,
>)
    ensures
        match r {
            Ok((rem, t)) => data_delimited_spec(payload@, crate::SOH, length as nat) == Ok::<
                (Seq<u8>, u16, Seq<u8>),
                WireErrorKind,
            >((rem@, t.tag, t.value@)),
            Err(e) => data_delimited_spec(payload@, crate::SOH, length as nat) == Err::<
                (Seq<u8>, u16, Seq<u8>),
                WireErrorKind,
            >(e),
        },
{
    data_delimited(length, crate::SOH, payload)
}

/// Read the leading tag digit run, with leading zeros allowed, rejecting
/// a run whose value does not fit in 16 bits.
fn read_tag_number<'a>(i: &'a [u8]) -> (r: Result<(&'a [u8], u16), WireErrorKind>)
    ensures
        match r {
            Ok((rem, t)) => u_atoi_spec(i@, 0xFFFF) == Ok::<(Seq<u8>, int), WireErrorKind>(
                (rem@, t as int),
            ),
            Err(e) => u_atoi_spec(i@, 0xFFFF) is Err && e == WireErrorKind::InvalidTagNumber,
        },
{
    match u_atoi(i, 0xFFFF) {
        Err(_) => Err(WireErrorKind::InvalidTagNumber),
        Ok((rem, v)) => Ok((rem, v as u16)),
    }
}

} // verus!
