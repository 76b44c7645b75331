//! Streaming variants of the integer parsers.
//!
//! The parsers in [`crate::wire_format`] treat their input as complete: a
//! digit run that touches the end of the buffer is simply a run that ends
//! there.  When reading from a transport, though, such a run may continue
//! in bytes that have not arrived yet, so these variants refuse to decide
//! and report `Incomplete` instead.  A run that is terminated inside the
//! buffer is decoded exactly as the complete parsers decode it.

use crate::wire_format::digit_prefix_len;
use crate::wire_format::is_digit_byte;
use crate::wire_format::lemma_digit_prefix_len;
use crate::wire_format::WireErrorKind;

use vstd::prelude::*;

verus! {

/// What the streaming unsigned parser yields: as the complete parser, but
/// a digit run reaching the end of the input is `Incomplete`.
pub open spec fn u_atoi_streaming_spec(s: Seq<u8>, max: int) -> Result<
    (Seq<u8>, int),
    WireErrorKind,
> {
    if digit_prefix_len(s) == s.len() {
        Err(WireErrorKind::Incomplete)
    } else {
        crate::wire_format::u_atoi_spec(s, max)
    }
}

/// What the streaming signed parser yields: as the complete parser, but a
/// digit run reaching the end of the input (after the optional sign) is
/// `Incomplete`.
pub open spec fn atoi_streaming_spec(s: Seq<u8>, min: int, max: int) -> Result<
    (Seq<u8>, int),
    WireErrorKind,
> {
    let sign = s.len() > 0 && s[0] == 0x2d;
    let rest = if sign {
        s.drop_first()
    } else {
        s
    };
    if digit_prefix_len(rest) == rest.len() {
        Err(WireErrorKind::Incomplete)
    } else {
        crate::wire_format::atoi_spec(s, min, max)
    }
}

/// Length of the digit run at the front of the input.
fn digit_run_len(i: &[u8]) -> (m: usize)
    ensures
        m == digit_prefix_len(i@),
{
    proof {
        lemma_digit_prefix_len(i@);
    }
    let ghost n = digit_prefix_len(i@);
    let len = i.len();
    let mut m: usize = 0;
    while m < len && 0x30 <= i[m] && i[m] <= 0x39
        invariant
            0 <= m <= len,
            len == i@.len(),
            n == digit_prefix_len(i@),
            0 <= n <= len,
            forall|k: int| 0 <= k < n ==> is_digit_byte(#[trigger] i@[k]),
            n < len ==> !is_digit_byte(i@[n]),
            forall|k: int| 0 <= k < m ==> is_digit_byte(#[trigger] i@[k]),
            m <= n,
        decreases len - m,
    {
        m += 1;
    }
    m
}

/// Decode an unsigned decimal run that must be terminated within the
/// input; a run that touches the end of the buffer is `Incomplete`.
pub fn u_atoi(i: &[u8], max: u64) -> (r: Result<(&[u8], u64), WireErrorKind>)
    ensures
        match r {
            Ok((rem, v)) => u_atoi_streaming_spec(i@, max as int) == Ok::<
                (Seq<u8>, int),
                WireErrorKind,
            >((rem@, v as int)),
            Err(e) => u_atoi_streaming_spec(i@, max as int) == Err::<
                (Seq<u8>, int),
                WireErrorKind,
            >(e),
        },
{
    let m = digit_run_len(i);
    if m == i.len() {
        return Err(WireErrorKind::Incomplete);
    }
    crate::wire_format::u_atoi(i, max)
}

/// Decode an optionally signed decimal run that must be terminated within
/// the input; a run that touches the end of the buffer is `Incomplete`.
pub fn atoi(i: &[u8], min: i64, max: i64) -> (r: Result<(&[u8], i64), WireErrorKind>)
    requires
        min <= 0 <= max,
    ensures
        match r {
            Ok((rem, v)) => atoi_streaming_spec(i@, min as int, max as int) == Ok::<
                (Seq<u8>, int),
                WireErrorKind,
            >((rem@, v as int)),
            Err(e) => atoi_streaming_spec(i@, min as int, max as int) == Err::<
                (Seq<u8>, int),
                WireErrorKind,
            >(e),
        },
{
    let sign = i.len() >= 1 && i[0] == 0x2d;
    let rest = if sign {
        vstd::slice::slice_subrange(i, 1, i.len())
    } else {
        i
    };
    proof {
        if sign {
            assert(rest@ =~= i@.drop_first());
        }
    }
    let m = digit_run_len(rest);
    if m == rest.len() {
        return Err(WireErrorKind::Incomplete);
    }
    crate::wire_format::atoi(i, min, max)
}

} // verus!
