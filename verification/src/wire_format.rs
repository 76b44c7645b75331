//! FIX wire-format handling: the integer codec and the tag splitter.
//!
//! The wire format is simple: integer keys with ASCII values, delimited by
//! the SOH (ASCII 0x01) byte.  Value payloads are not allowed to include the
//! delimiter byte, with two exceptions:
//!
//! - Because SOH is unprintable, the delimiter can be replaced with a
//!   printable substitute when humans need to inspect messages, so every
//!   parser here takes the delimiter as a parameter.
//! - A "data" value is allowed to contain the delimiter byte, because its
//!   length is always transmitted in a tag immediately preceding it; the
//!   data-tag splitter takes that length instead of scanning.
//!
//! The specification functions in this module define, once, what a decimal
//! digit run denotes and what the canonical decimal rendering of an integer
//! is; every contract in the crate is stated in terms of them.

use vstd::prelude::*;
use vstd::slice::slice_subrange;

verus! {

/// Errors reported by the wire-level parsers in this crate.
#[derive(Clone, Copy, Debug, PartialEq, Eq, Structural)]
pub enum WireErrorKind {
    /// A decimal digit run was expected and none was found.
    NoDigits,
    /// A decoded magnitude exceeds the target integer range.
    Overflow,
    /// A tag number begins with a leading zero byte.
    LeadingZero,
    /// A required literal byte (such as the `=` separator) was not found.
    UnexpectedByte,
    /// The tag number in front of a value could not be parsed.
    InvalidTagNumber,
    /// A value that must be non-empty was empty.
    EmptyValue,
    /// A string value contains the forbidden delimiter byte.
    EmbeddedDelimiter,
    /// The terminating delimiter byte is absent.
    MissingDelimiter,
    /// The digit run reaches the end of the input, so a streaming parser
    /// cannot tell whether it is complete.
    Incomplete,
}

// ---------------------------------------------------------------------------
// Specification: decimal digit runs and their numeric value
// ---------------------------------------------------------------------------

/// An ASCII decimal digit, `'0'` through `'9'`.
pub open spec fn is_digit_byte(b: u8) -> bool {
    0x30 <= b && b <= 0x39
}

/// Every byte of `s` is an ASCII decimal digit.
pub open spec fn all_digits(s: Seq<u8>) -> bool {
    forall|k: int| 0 <= k < s.len() ==> is_digit_byte(#[trigger] s[k])
}

/// Length of the maximal digit run at the front of `s`.
pub open spec fn digit_prefix_len(s: Seq<u8>) -> int
    decreases s.len(),
{
    if s.len() == 0 || !is_digit_byte(s[0]) {
        0
    } else {
        1 + digit_prefix_len(s.drop_first())
    }
}

/// Numeric value of a digit run, most significant digit first.
/// Meaningful when `all_digits(s)`; leading zeros do not change the value.
pub open spec fn digits_val(s: Seq<u8>) -> int
    decreases s.len(),
{
    if s.len() == 0 {
        0
    } else {
        10 * digits_val(s.drop_last()) + (s.last() - 0x30)
    }
}

/// `digit_prefix_len` is a length within bounds, marks a digit run, and
/// stops at the first non-digit.
pub proof fn lemma_digit_prefix_len(s: Seq<u8>)
    ensures
        0 <= digit_prefix_len(s) <= s.len(),
        forall|k: int| 0 <= k < digit_prefix_len(s) ==> is_digit_byte(#[trigger] s[k]),
        digit_prefix_len(s) < s.len() ==> !is_digit_byte(s[digit_prefix_len(s)]),
    decreases s.len(),
{
    if s.len() == 0 || !is_digit_byte(s[0]) {
    } else {
        lemma_digit_prefix_len(s.drop_first());
        assert forall|k: int| 0 <= k < digit_prefix_len(s) implies is_digit_byte(#[trigger] s[k]) by {
            if k > 0 {
                assert(s[k] == s.drop_first()[k - 1]);
            }
        }
    }
}

/// The digit run is the whole sequence exactly when every byte is a digit.
pub proof fn lemma_digit_prefix_len_all(s: Seq<u8>)
    ensures
        digit_prefix_len(s) == s.len() <==> all_digits(s),
    decreases s.len(),
{
    lemma_digit_prefix_len(s);
    if s.len() > 0 && is_digit_byte(s[0]) {
        lemma_digit_prefix_len_all(s.drop_first());
        if digit_prefix_len(s) == s.len() {
            assert forall|k: int| 0 <= k < s.len() implies is_digit_byte(#[trigger] s[k]) by {
                if k > 0 {
                    assert(s[k] == s.drop_first()[k - 1]);
                }
            }
        } else {
            if all_digits(s) {
                assert(forall|k: int|
                    0 <= k < s.drop_first().len() ==> #[trigger] s.drop_first()[k] == s[k + 1]);
            }
        }
    }
}

/// Appending one digit multiplies the prefix value by ten and adds it.
pub proof fn lemma_digits_val_step(s: Seq<u8>, j: int)
    requires
        0 <= j < s.len(),
    ensures
        digits_val(s.take(j + 1)) == 10 * digits_val(s.take(j)) + (s[j] - 0x30),
{
    assert(s.take(j + 1).drop_last() =~= s.take(j));
    assert(s.take(j + 1).last() == s[j]);
}

/// The value of a digit run is never negative.
pub proof fn lemma_digits_val_nonneg(s: Seq<u8>)
    requires
        all_digits(s),
    ensures
        digits_val(s) >= 0,
    decreases s.len(),
{
    if s.len() > 0 {
        assert(forall|k: int|
            0 <= k < s.drop_last().len() ==> #[trigger] s.drop_last()[k] == s[k]);
        lemma_digits_val_nonneg(s.drop_last());
    }
}

/// A prefix of a digit run is worth no more than the whole run.
pub proof fn lemma_digits_val_prefix_le(s: Seq<u8>, j: int)
    requires
        all_digits(s),
        0 <= j <= s.len(),
    ensures
        digits_val(s.take(j)) <= digits_val(s),
    decreases s.len(),
{
    if j == s.len() {
        assert(s.take(j) =~= s);
    } else {
        assert(forall|k: int|
            0 <= k < s.drop_last().len() ==> #[trigger] s.drop_last()[k] == s[k]);
        assert(s.take(j) =~= s.drop_last().take(j));
        lemma_digits_val_prefix_le(s.drop_last(), j);
        lemma_digits_val_nonneg(s.drop_last());
    }
}

/// Prepending a `'0'` byte to a digit run does not change its value.
pub proof fn lemma_leading_zero_ignored(s: Seq<u8>)
    ensures
        digits_val(seq![0x30u8] + s) == digits_val(s),
    decreases s.len(),
{
    if s.len() == 0 {
        let z = seq![0x30u8] + s;
        assert(z =~= seq![0x30u8]);
        assert(z.drop_last() =~= Seq::<u8>::empty());
        assert(z.last() == 0x30u8);
        assert(digits_val(z) == 10 * digits_val(z.drop_last()));
    } else {
        assert((seq![0x30u8] + s).drop_last() =~= seq![0x30u8] + s.drop_last());
        assert((seq![0x30u8] + s).last() == s.last());
        lemma_leading_zero_ignored(s.drop_last());
    }
}

// ---------------------------------------------------------------------------
// Specification: canonical decimal renderings
// ---------------------------------------------------------------------------

/// The canonical decimal rendering of an unsigned value: minimal width, so
/// no leading zeros, with `"0"` for zero.
pub open spec fn u_dec_repr(v: nat) -> Seq<u8>
    decreases v,
{
    if v < 10 {
        seq![(0x30 + v) as u8]
    } else {
        u_dec_repr(v / 10).push((0x30 + v % 10) as u8)
    }
}

/// The canonical decimal rendering of a signed value: a single `'-'` prefix
/// exactly when the value is negative.
pub open spec fn dec_repr(v: int) -> Seq<u8> {
    if v < 0 {
        seq![0x2du8] + u_dec_repr((-v) as nat)
    } else {
        u_dec_repr(v as nat)
    }
}

/// The canonical rendering of an unsigned value is a non-empty digit run
/// without leading zeros, and decoding it yields the value back.
pub proof fn lemma_u_dec_repr(v: nat)
    ensures
        u_dec_repr(v).len() >= 1,
        all_digits(u_dec_repr(v)),
        digits_val(u_dec_repr(v)) == v,
        v >= 1 ==> u_dec_repr(v)[0] != 0x30,
        u_dec_repr(v).len() > 1 ==> u_dec_repr(v)[0] != 0x30,
    decreases v,
{
    if v < 10 {
        let s = seq![(0x30 + v) as u8];
        assert(s.len() == 1);
        assert((0x30 + v) as u8 == 0x30 + v);
        assert(s.last() == (0x30 + v) as u8);
        assert(s.drop_last() =~= Seq::<u8>::empty());
        assert(digits_val(s.drop_last()) == 0);
        assert(digits_val(s) == 10 * digits_val(s.drop_last()) + (s.last() - 0x30));
        assert(digits_val(s) == v);
    } else {
        lemma_u_dec_repr(v / 10);
        let r = u_dec_repr(v / 10);
        vstd::arithmetic::div_mod::lemma_fundamental_div_mod(v as int, 10);
        assert(0 <= v % 10 < 10);
        let d: u8 = (0x30 + v % 10) as u8;
        assert(d == 0x30 + v % 10);
        let s = r.push(d);
        assert(s.drop_last() =~= r);
        assert(s.last() == d);
        assert(digits_val(s) == 10 * digits_val(r) + (d - 0x30));
        assert((v as int) / 10 == (v / 10) as int);
        assert((v as int) % 10 == (v % 10) as int);
        assert(10 * ((v / 10) as int) + ((v % 10) as int) == v as int);
        assert(digits_val(s) == v);
        assert(forall|k: int| 0 <= k < s.len() ==> is_digit_byte(#[trigger] s[k]));
        assert(s[0] == r[0]);
    }
}

// ---------------------------------------------------------------------------
// Specification: the integer codec's results
// ---------------------------------------------------------------------------

/// What decoding an unsigned decimal run from the front of `s` yields when
/// the target range is `0 ..= max`: the unread remainder and the value, or
/// the error.
pub open spec fn u_atoi_spec(s: Seq<u8>, max: int) -> Result<(Seq<u8>, int), WireErrorKind> {
    let n = digit_prefix_len(s);
    if n == 0 {
        Err(WireErrorKind::NoDigits)
    } else if digits_val(s.take(n)) > max {
        Err(WireErrorKind::Overflow)
    } else {
        Ok((s.skip(n), digits_val(s.take(n))))
    }
}

/// What decoding an optionally `'-'`-signed decimal run from the front of
/// `s` yields when the target range is `min ..= max`.
pub open spec fn atoi_spec(s: Seq<u8>, min: int, max: int) -> Result<
    (Seq<u8>, int),
    WireErrorKind,
> {
    let sign = s.len() > 0 && s[0] == 0x2d;
    let rest = if sign {
        s.drop_first()
    } else {
        s
    };
    let n = digit_prefix_len(rest);
    if n == 0 {
        Err(WireErrorKind::NoDigits)
    } else {
        let v = if sign {
            -digits_val(rest.take(n))
        } else {
            digits_val(rest.take(n))
        };
        if v < min || v > max {
            Err(WireErrorKind::Overflow)
        } else {
            Ok((rest.skip(n), v))
        }
    }
}

/// What decoding a tag number from the front of `s` yields: an unsigned
/// 16-bit decode that additionally rejects any leading `'0'` byte.
pub open spec fn tagnum_spec(s: Seq<u8>) -> Result<(Seq<u8>, u16), WireErrorKind> {
    if s.len() > 0 && s[0] == 0x30 {
        Err(WireErrorKind::LeadingZero)
    } else {
        match u_atoi_spec(s, 0xFFFF) {
            Ok((rem, v)) => Ok((rem, v as u16)),
            Err(e) => Err(e),
        }
    }
}

// ---------------------------------------------------------------------------
// The integer codec, decoding side
// ---------------------------------------------------------------------------

/// Consume one required literal byte from the front of the input.
pub fn byte(b: u8, i: &[u8]) -> (r: Result<(&[u8], u8), WireErrorKind>)
    ensures
        match r {
            Ok((rem, v)) => i@.len() >= 1 && i@[0] == b && v == b && rem@ == i@.skip(1),
            Err(e) => (i@.len() == 0 || i@[0] != b) && e == WireErrorKind::UnexpectedByte,
        },
{
    if i.len() >= 1 && i[0] == b {
        let rem = slice_subrange(i, 1, i.len());
        proof {
            assert(rem@ =~= i@.skip(1));
        }
        Ok((rem, b))
    } else {
        Err(WireErrorKind::UnexpectedByte)
    }
}

/// Decode a maximal run of ASCII digits from the front of the input into an
/// unsigned value, failing with `NoDigits` when no digit is present and
/// with `Overflow` as soon as the run's value exceeds `max`.
pub fn u_atoi(i: &[u8], max: u64) -> (r: Result<(&[u8], u64), WireErrorKind>)
    ensures
        match r {
            Ok((rem, v)) => u_atoi_spec(i@, max as int) == Ok::<(Seq<u8>, int), WireErrorKind>(
                (rem@, v as int),
            ),
            Err(e) => u_atoi_spec(i@, max as int) == Err::<(Seq<u8>, int), WireErrorKind>(e),
        },
{
    proof {
        lemma_digit_prefix_len(i@);
    }
    let ghost n = digit_prefix_len(i@);
    let len = i.len();

    // First find the end of the digit run.
    let mut m: usize = 0;
    while m < len && 0x30 <= i[m] && i[m] <= 0x39
        invariant
            0 <= m <= len,
            len == i@.len(),
            n == digit_prefix_len(i@),
            0 <= n <= len,
            forall|k: int| 0 <= k < n ==> is_digit_byte(#[trigger] i@[k]),
            n < len ==> !is_digit_byte(i@[n]),
            forall|k: int| 0 <= k < m ==> is_digit_byte(#[trigger] i@[k]),
            m <= n,
        decreases len - m,
    {
        m += 1;
    }
    proof {
        assert(m == n);
    }
    if m == 0 {
        return Err(WireErrorKind::NoDigits);
    }

    // Then fold the digits into the accumulator with an exact overflow test.
    let q = max / 10;
    let rm = max % 10;
    proof {
        vstd::arithmetic::div_mod::lemma_fundamental_div_mod(max as int, 10);
    }
    let mut j: usize = 0;
    let mut val: u64 = 0;
    while j < m
        invariant
            0 <= j <= m <= len,
            len == i@.len(),
            n == digit_prefix_len(i@),
            m == n,
            forall|k: int| 0 <= k < n ==> is_digit_byte(#[trigger] i@[k]),
            val == digits_val(i@.take(j as int)),
            val <= max,
            q == max as int / 10,
            rm == max as int % 10,
            max as int == 10 * (q as int) + rm as int,
            0 <= rm < 10,
        decreases m - j,
    {
        let b = i[j];
        let d = (b - 0x30) as u64;
        proof {
            lemma_digits_val_step(i@, j as int);
        }
        if val > q || (val == q && d > rm) {
            proof {
                assert(10 * (val as int) + d as int > max as int);
                assert(all_digits(i@.take(n)));
                lemma_digits_val_prefix_le(i@.take(n), j as int + 1);
                assert(i@.take(n).take(j as int + 1) =~= i@.take(j as int + 1));
                assert(digits_val(i@.take(n)) > max as int);
            }
            return Err(WireErrorKind::Overflow);
        }
        proof {
            assert(10 * (val as int) + d as int <= max as int);
        }
        val = val * 10 + d;
        j += 1;
    }
    let rem = slice_subrange(i, m, len);
    proof {
        assert(i@.take(m as int) =~= i@.take(n));
        assert(rem@ =~= i@.skip(n));
    }
    Ok((rem, val))
}

/// Decode an optionally signed run of ASCII digits from the front of the
/// input into a signed value in `min ..= max`.  The magnitude is checked
/// before negation, so the most negative value of the range is reachable.
pub fn atoi(i: &[u8], min: i64, max: i64) -> (r: Result<(&[u8], i64), WireErrorKind>)
    requires
        min <= 0 <= max,
    ensures
        match r {
            Ok((rem, v)) => atoi_spec(i@, min as int, max as int) == Ok::<
                (Seq<u8>, int),
                WireErrorKind,
            >((rem@, v as int)),
            Err(e) => atoi_spec(i@, min as int, max as int) == Err::<
                (Seq<u8>, int),
                WireErrorKind,
            >(e),
        },
{
    let sign = i.len() >= 1 && i[0] == 0x2d;
    let rest = if sign {
        slice_subrange(i, 1, i.len())
    } else {
        i
    };
    proof {
        if sign {
            assert(rest@ =~= i@.drop_first());
        }
    }
    let maxmag: u64 = if sign {
        if min == i64::MIN {
            9223372036854775808u64
        } else {
            (-min) as u64
        }
    } else {
        max as u64
    };
    match u_atoi(rest, maxmag) {
        Err(e) => Err(e),
        Ok((rem, mag)) => {
            let v: i64 = if sign {
                if mag == 9223372036854775808u64 {
                    i64::MIN
                } else {
                    -(mag as i64)
                }
            } else {
                mag as i64
            };
            Ok((rem, v))
        },
    }
}

/// Decode a tag number: an unsigned 16-bit decimal run that must not begin
/// with a leading zero (so the tag `0` itself is rejected).
pub fn tagnum(i: &[u8]) -> (r: Result<(&[u8], u16), WireErrorKind>)
    ensures
        match r {
            Ok((rem, t)) => tagnum_spec(i@) == Ok::<(Seq<u8>, u16), WireErrorKind>((rem@, t)),
            Err(e) => tagnum_spec(i@) == Err::<(Seq<u8>, u16), WireErrorKind>(e),
        },
{
    if i.len() >= 1 && i[0] == 0x30 {
        return Err(WireErrorKind::LeadingZero);
    }
    match u_atoi(i, 0xFFFF) {
        Ok((rem, v)) => Ok((rem, v as u16)),
        Err(e) => Err(e),
    }
}

// ---------------------------------------------------------------------------
// The integer codec, encoding side
// ---------------------------------------------------------------------------

/// Reverse the bytes of the buffer between `start` and `end` in place,
/// leaving the rest untouched.
fn reverse_range(buf: &mut [u8], start: usize, end: usize)
    requires
        start <= end <= old(buf)@.len(),
    ensures
        final(buf)@.len() == old(buf)@.len(),
        forall|k: int| start <= k < end ==> final(buf)@[k] == old(buf)@[start + end - 1 - k],
        forall|k: int| 0 <= k < start ==> final(buf)@[k] == old(buf)@[k],
        forall|k: int| end <= k < old(buf)@.len() ==> final(buf)@[k] == old(buf)@[k],
{
    if end == start {
        return ;
    }
    let mut x: usize = start;
    let mut y: usize = end - 1;
    while x < y
        invariant
            start < end,
            end <= old(buf)@.len(),
            buf@.len() == old(buf)@.len(),
            x + y == start + end - 1,
            start <= x,
            y < end,
            forall|k: int| start <= k < x ==> buf@[k] == old(buf)@[start + end - 1 - k],
            forall|k: int| y < k < end ==> buf@[k] == old(buf)@[start + end - 1 - k],
            forall|k: int| x <= k <= y ==> buf@[k] == old(buf)@[k],
            forall|k: int| 0 <= k < start ==> buf@[k] == old(buf)@[k],
            forall|k: int| end <= k < old(buf)@.len() ==> buf@[k] == old(buf)@[k],
        decreases y + 1 - x,
    {
        let a = buf[x];
        let b = buf[y];
        buf[x] = b;
        buf[y] = a;
        x += 1;
        y -= 1;
    }
}

/// Reverse a non-empty byte slice in place, swapping outer pairs inward.
pub fn swap_outer_inner(slice: &mut [u8])
    requires
        old(slice)@.len() >= 1,
    ensures
        final(slice)@ == old(slice)@.reverse(),
{
    let len = slice.len();
    reverse_range(slice, 0, len);
    proof {
        assert(slice@ =~= old(slice)@.reverse());
    }
}

/// Write the canonical decimal rendering of `value` into `buf` starting at
/// `start`, returning the number of bytes written, or `None` when the
/// buffer is too short (in which case bytes from `start` on may have been
/// overwritten).
fn u_itos_at(value: u64, buf: &mut [u8], start: usize) -> (r: Option<usize>)
    requires
        start <= old(buf)@.len(),
    ensures
        final(buf)@.len() == old(buf)@.len(),
        forall|k: int| 0 <= k < start ==> final(buf)@[k] == old(buf)@[k],
        match r {
            Some(n) => {
                &&& n == u_dec_repr(value as nat).len()
                &&& start + n <= old(buf)@.len()
                &&& final(buf)@.subrange(start as int, start + n) == u_dec_repr(value as nat)
                &&& forall|k: int|
                    start + n <= k < old(buf)@.len() ==> final(buf)@[k] == old(buf)@[k]
            },
            None => old(buf)@.len() < start + u_dec_repr(value as nat).len(),
        },
{
    proof {
        lemma_u_dec_repr(value as nat);
    }
    if value == 0 {
        if buf.len() == start {
            return None;
        }
        buf[start] = 0x30;
        proof {
            assert(buf@.subrange(start as int, start as int + 1) =~= u_dec_repr(0));
        }
        return Some(1);
    }

    // Write the digits least significant first, then reverse them in place.
    let len = buf.len();
    let mut idx: usize = start;
    let mut r: u64 = value;
    while r != 0
        invariant
            start <= idx <= len,
            len == buf@.len() == old(buf)@.len(),
            forall|k: int| 0 <= k < start ==> buf@[k] == old(buf)@[k],
            forall|k: int| idx <= k < len ==> buf@[k] == old(buf)@[k],
            if r > 0 {
                u_dec_repr(value as nat) == u_dec_repr(r as nat) + buf@.subrange(
                    start as int,
                    idx as int,
                ).reverse()
            } else {
                u_dec_repr(value as nat) == buf@.subrange(start as int, idx as int).reverse()
            },
        decreases r,
    {
        if idx == len {
            proof {
                lemma_u_dec_repr(r as nat);
            }
            return None;
        }
        let d: u8 = 0x30 + (r % 10) as u8;
        let ghost prev = buf@;
        buf[idx] = d;
        proof {
            lemma_u_dec_repr(r as nat);
            vstd::arithmetic::div_mod::lemma_fundamental_div_mod(r as int, 10);
            let written = buf@.subrange(start as int, idx as int + 1);
            assert(written.drop_last() =~= prev.subrange(start as int, idx as int));
            assert(written.last() == d);
            if r >= 10 {
                assert(u_dec_repr(r as nat) == u_dec_repr((r / 10) as nat).push(d));
                assert(written.reverse() =~= seq![d] + prev.subrange(
                    start as int,
                    idx as int,
                ).reverse());
                assert(u_dec_repr((r / 10) as nat) + written.reverse() =~= u_dec_repr(r as nat)
                    + prev.subrange(start as int, idx as int).reverse());
            } else {
                assert(u_dec_repr(r as nat) =~= seq![d]);
                assert(written.reverse() =~= u_dec_repr(r as nat) + prev.subrange(
                    start as int,
                    idx as int,
                ).reverse());
            }
        }
        idx += 1;
        r = r / 10;
    }
    let ghost pre = buf@;
    reverse_range(buf, start, idx);
    proof {
        assert(buf@.subrange(start as int, idx as int) =~= pre.subrange(
            start as int,
            idx as int,
        ).reverse());
        assert(buf@.subrange(start as int, idx as int) == u_dec_repr(value as nat));
    }
    Some(idx - start)
}

/// Write the canonical decimal rendering of an unsigned value into the
/// front of `buf`: minimal width, no leading zeros, `"0"` for zero.
/// Returns the number of bytes written, or `None` when the buffer is too
/// short, in which case the buffer contents are unspecified.
pub fn u_itos(value: u64, buf: &mut [u8]) -> (r: Option<usize>)
    ensures
        final(buf)@.len() == old(buf)@.len(),
        match r {
            Some(n) => {
                &&& n == u_dec_repr(value as nat).len()
                &&& n <= old(buf)@.len()
                &&& final(buf)@.take(n as int) == u_dec_repr(value as nat)
                &&& final(buf)@.skip(n as int) == old(buf)@.skip(n as int)
            },
            None => old(buf)@.len() < u_dec_repr(value as nat).len(),
        },
{
    let r = u_itos_at(value, buf, 0);
    proof {
        match r {
            Some(n) => {
                assert(buf@.take(n as int) =~= buf@.subrange(0, n as int));
                assert(buf@.skip(n as int) =~= old(buf)@.skip(n as int));
            },
            None => {},
        }
    }
    r
}

/// Write the canonical decimal rendering of a signed value into the front
/// of `buf`: a single `'-'` prefix exactly when the value is negative, then
/// the minimal-width digits.  Returns the number of bytes written, or
/// `None` when the buffer is too short, in which case the buffer contents
/// are unspecified.
pub fn itos(value: i64, buf: &mut [u8]) -> (r: Option<usize>)
    ensures
        final(buf)@.len() == old(buf)@.len(),
        match r {
            Some(n) => {
                &&& n == dec_repr(value as int).len()
                &&& n <= old(buf)@.len()
                &&& final(buf)@.take(n as int) == dec_repr(value as int)
                &&& final(buf)@.skip(n as int) == old(buf)@.skip(n as int)
            },
            None => old(buf)@.len() < dec_repr(value as int).len(),
        },
{
    if value >= 0 {
        let r = u_itos(value as u64, buf);
        proof {
            assert(dec_repr(value as int) == u_dec_repr(value as nat));
        }
        r
    } else {
        let ghost mag_spec = (-(value as int)) as nat;
        proof {
            assert(dec_repr(value as int) == seq![0x2du8] + u_dec_repr(mag_spec));
            assert(dec_repr(value as int).len() == 1 + u_dec_repr(mag_spec).len());
        }
        if buf.len() == 0 {
            return None;
        }
        buf[0] = 0x2d;
        let mag: u64 = if value == i64::MIN {
            9223372036854775808u64
        } else {
            (-value) as u64
        };
        let ghost mid = buf@;
        let r = u_itos_at(mag, buf, 1);
        match r {
            Some(n) => {
                proof {
                    assert(buf@[0] == 0x2du8);
                    assert(buf@.take(n as int + 1) =~= seq![0x2du8] + buf@.subrange(
                        1,
                        n as int + 1,
                    ));
                    assert(buf@.take(n as int + 1) == dec_repr(value as int));
                    assert(buf@.skip(n as int + 1) =~= old(buf)@.skip(n as int + 1));
                }
                Some(n + 1)
            },
            None => None,
        }
    }
}

// ---------------------------------------------------------------------------
// Laws of the integer codec
// ---------------------------------------------------------------------------

/// Round trip, unsigned: decoding the canonical rendering of any unsigned
/// 64-bit value yields exactly that value back and consumes every byte;
/// the rendering is all digits (so no sign byte) and never has a leading
/// zero.  Together with the contracts of `u_itos` and `u_atoi`, this says
/// `u_atoi` inverts `u_itos` on every representable value.
pub proof fn lemma_unsigned_roundtrip(v: u64)
    ensures
        u_atoi_spec(u_dec_repr(v as nat), u64::MAX as int) == Ok::<(Seq<u8>, int), WireErrorKind>(
            (Seq::<u8>::empty(), v as int),
        ),
        all_digits(u_dec_repr(v as nat)),
        u_dec_repr(v as nat).len() > 1 ==> u_dec_repr(v as nat)[0] != 0x30,
{
    lemma_u_dec_repr(v as nat);
    let s = u_dec_repr(v as nat);
    lemma_digit_prefix_len_all(s);
    assert(s.take(s.len() as int) =~= s);
    assert(s.skip(s.len() as int) =~= Seq::<u8>::empty());
}

/// Round trip, signed: decoding the canonical rendering of any signed
/// 64-bit value yields exactly that value back and consumes every byte;
/// the rendering carries a sign byte exactly when the value is negative,
/// and its digit run never has a leading zero.  Together with the
/// contracts of `itos` and `atoi`, this says `atoi` inverts `itos` on
/// every representable value.
pub proof fn lemma_signed_roundtrip(v: i64)
    ensures
        atoi_spec(dec_repr(v as int), i64::MIN as int, i64::MAX as int) == Ok::<
            (Seq<u8>, int),
            WireErrorKind,
        >((Seq::<u8>::empty(), v as int)),
        v >= 0 ==> all_digits(dec_repr(v as int)),
        v >= 0 && dec_repr(v as int).len() > 1 ==> dec_repr(v as int)[0] != 0x30,
        v < 0 ==> dec_repr(v as int)[0] == 0x2d && all_digits(dec_repr(v as int).drop_first())
            && (dec_repr(v as int).len() > 2 ==> dec_repr(v as int)[1] != 0x30),
{
    let s = dec_repr(v as int);
    if v >= 0 {
        lemma_u_dec_repr(v as nat);
        lemma_digit_prefix_len_all(s);
        assert(s.take(s.len() as int) =~= s);
        assert(s.skip(s.len() as int) =~= Seq::<u8>::empty());
    } else {
        let m = (-(v as int)) as nat;
        lemma_u_dec_repr(m);
        let digits = u_dec_repr(m);
        assert(s =~= seq![0x2du8] + digits);
        assert(s.drop_first() =~= digits);
        lemma_digit_prefix_len_all(digits);
        assert(digits.take(digits.len() as int) =~= digits);
        assert(digits.skip(digits.len() as int) =~= Seq::<u8>::empty());
        assert(s[0] == 0x2d);
        if s.len() > 2 {
            assert(s[1] == digits[0]);
        }
    }
}

/// Leading-zero tolerance: prepending a `'0'` byte to an input that
/// already starts with a digit changes neither the decoded value nor the
/// unread remainder, for any target range.
pub proof fn lemma_leading_zero_tolerance(s: Seq<u8>, max: int)
    requires
        digit_prefix_len(s) > 0,
    ensures
        u_atoi_spec(seq![0x30u8] + s, max) == u_atoi_spec(s, max),
{
    let z = seq![0x30u8] + s;
    let n = digit_prefix_len(s);
    lemma_digit_prefix_len(s);
    assert(z.drop_first() =~= s);
    assert(digit_prefix_len(z) == 1 + n);
    lemma_leading_zero_ignored(s.take(n));
    assert(z.take(n + 1) =~= seq![0x30u8] + s.take(n));
    assert(digits_val(z.take(n + 1)) == digits_val(s.take(n)));
    assert(z.skip(n + 1) =~= s.skip(n));
}

// ---------------------------------------------------------------------------
// Specification: splitting one tag unit from a buffer
// ---------------------------------------------------------------------------

/// Index of the first occurrence of `b` in `s`, if any.
pub open spec fn find_byte(s: Seq<u8>, b: u8) -> Option<int>
    decreases s.len(),
{
    if s.len() == 0 {
        None
    } else if s[0] == b {
        Some(0)
    } else {
        match find_byte(s.drop_first(), b) {
            Some(p) => Some(p + 1),
            None => None,
        }
    }
}

/// `find_byte` returns the first occurrence: the byte is there, and no
/// earlier position holds it; `None` means the byte does not occur at all.
pub proof fn lemma_find_byte(s: Seq<u8>, b: u8)
    ensures
        match find_byte(s, b) {
            Some(p) => 0 <= p < s.len() && s[p] == b && forall|k: int| 0 <= k < p ==> s[k] != b,
            None => forall|k: int| 0 <= k < s.len() ==> s[k] != b,
        },
    decreases s.len(),
{
    if s.len() > 0 && s[0] != b {
        lemma_find_byte(s.drop_first(), b);
        match find_byte(s.drop_first(), b) {
            Some(p) => {
                assert(s[p + 1] == s.drop_first()[p]);
                assert forall|k: int| 0 <= k < p + 1 implies s[k] != b by {
                    if k > 0 {
                        assert(s[k] == s.drop_first()[k - 1]);
                    }
                }
            },
            None => {
                assert forall|k: int| 0 <= k < s.len() implies s[k] != b by {
                    if k > 0 {
                        assert(s[k] == s.drop_first()[k - 1]);
                    }
                }
            },
        }
    }
}

/// What splitting one `<tagnum>=<value><delimiter>` unit from the front of
/// `s` yields: the unread remainder, the tag number, and the value bytes,
/// or the error.  The tag number must have no leading zero and fit in
/// 16 bits; the value is every byte up to the next delimiter and must be
/// non-empty; the trailing delimiter is required and consumed.
pub open spec fn split_tag_spec(s: Seq<u8>, delimiter: u8) -> Result<
    (Seq<u8>, u16, Seq<u8>),
    WireErrorKind,
> {
    match tagnum_spec(s) {
        Err(_) => Err(WireErrorKind::InvalidTagNumber),
        Ok((after_tag, tag)) => {
            if after_tag.len() == 0 || after_tag[0] != 0x3d {
                Err(WireErrorKind::UnexpectedByte)
            } else {
                let rest = after_tag.drop_first();
                if rest.len() == 0 || rest[0] == delimiter {
                    Err(WireErrorKind::EmptyValue)
                } else {
                    match find_byte(rest, delimiter) {
                        None => Err(WireErrorKind::MissingDelimiter),
                        Some(p) => Ok((rest.skip(p + 1), tag, rest.take(p))),
                    }
                }
            }
        },
    }
}

/// What splitting one data unit `<tagnum>=<exactly-len-bytes><delimiter>`
/// from the front of `s` yields.  The value is exactly `len` bytes taken
/// verbatim (it may contain the delimiter), and the single trailing
/// delimiter byte is still required and consumed.
pub open spec fn split_data_tag_spec(s: Seq<u8>, delimiter: u8, len: nat) -> Result<
    (Seq<u8>, u16, Seq<u8>),
    WireErrorKind,
> {
    match tagnum_spec(s) {
        Err(_) => Err(WireErrorKind::InvalidTagNumber),
        Ok((after_tag, tag)) => {
            if after_tag.len() == 0 || after_tag[0] != 0x3d {
                Err(WireErrorKind::UnexpectedByte)
            } else {
                let rest = after_tag.drop_first();
                if rest.len() < len + 1 || rest[len as int] != delimiter {
                    Err(WireErrorKind::MissingDelimiter)
                } else {
                    Ok((rest.skip(len as int + 1), tag, rest.take(len as int)))
                }
            }
        },
    }
}

// ---------------------------------------------------------------------------
// The tag splitter
// ---------------------------------------------------------------------------

/// Base FIX protocol tag/value pair.  The value borrows from the parsed
/// input buffer; no bytes are copied.
#[derive(Debug, PartialEq)]
pub struct RawTag<'a> {
    /// Tag number for a FIX message.
    pub tag: u16,
    /// Unparsed data associated with a specific tag.
    pub value: &'a [u8],
}

/// Parse a simple FIX tag using a custom delimiter.
pub fn tag_delimited<'a>(delimiter: u8, i: &'a [u8]) -> (r: Result<
    (&'a [u8], RawTag<'a>),
    WireErrorKind,
>)
    ensures
        match r {
            Ok((rem, t)) => split_tag_spec(i@, delimiter) == Ok::<
                (Seq<u8>, u16, Seq<u8>),
                WireErrorKind,
            >((rem@, t.tag, t.value@)),
            Err(e) => split_tag_spec(i@, delimiter) == Err::<
                (Seq<u8>, u16, Seq<u8>),
                WireErrorKind,
            >(e),
        },
{
    let (after_tag, tag) = match tagnum(i) {
        Ok(x) => x,
        Err(_) => {
            return Err(WireErrorKind::InvalidTagNumber);
        },
    };
    if after_tag.len() == 0 || after_tag[0] != 0x3d {
        return Err(WireErrorKind::UnexpectedByte);
    }
    let rest = slice_subrange(after_tag, 1, after_tag.len());
    proof {
        assert(rest@ =~= after_tag@.drop_first());
        lemma_find_byte(rest@, delimiter);
    }
    let len = rest.len();
    let mut p: usize = 0;
    while p < len && rest[p] != delimiter
        invariant
            0 <= p <= len,
            len == rest@.len(),
            forall|k: int| 0 <= k < p ==> rest@[k] != delimiter,
        decreases len - p,
    {
        p += 1;
    }
    if p == 0 {
        return Err(WireErrorKind::EmptyValue);
    }
    if p == len {
        return Err(WireErrorKind::MissingDelimiter);
    }
    proof {
        assert(find_byte(rest@, delimiter) == Some(p as int));
    }
    let rem = slice_subrange(rest, p + 1, len);
    let value = slice_subrange(rest, 0, p);
    proof {
        assert(rem@ =~= rest@.skip(p as int + 1));
        assert(value@ =~= rest@.take(p as int));
    }
    Ok((rem, RawTag { tag, value }))
}

/// Parse a simple FIX tag using the standard ASCII SOH delimiter.
pub fn tag<'a>(payload: &'a [u8]) -> (r: Result<(&'a [u8], RawTag<'a>), WireErrorKind>)
    ensures
        match r {
            Ok((rem, t)) => split_tag_spec(payload@, crate::SOH) == Ok::<
                (Seq<u8>, u16, Seq<u8>),
                WireErrorKind,
            >((rem@, t.tag, t.value@)),
            Err(e) => split_tag_spec(payload@, crate::SOH) == Err::<
                (Seq<u8>, u16, Seq<u8>),
                WireErrorKind,
            >(e),
        },
{
    tag_delimited(crate::SOH, payload)
}

/// Parse a data FIX tag using a custom delimiter: the value is exactly
/// `len` bytes, taken without scanning for the delimiter.
pub fn data_tag_delimited<'a>(delimiter: u8, len: usize, i: &'a [u8]) -> (r: Result<
    (&'a [u8], RawTag<'a>),
    WireErrorKind,
>)
    ensures
        match r {
            Ok((rem, t)) => split_data_tag_spec(i@, delimiter, len as nat) == Ok::<
                (Seq<u8>, u16, Seq<u8>),
                WireErrorKind,
            >((rem@, t.tag, t.value@)),
            Err(e) => split_data_tag_spec(i@, delimiter, len as nat) == Err::<
                (Seq<u8>, u16, Seq<u8>),
                WireErrorKind,
            >(e),
        },
{
    let (after_tag, tag) = match tagnum(i) {
        Ok(x) => x,
        Err(_) => {
            return Err(WireErrorKind::InvalidTagNumber);
        },
    };
    if after_tag.len() == 0 || after_tag[0] != 0x3d {
        return Err(WireErrorKind::UnexpectedByte);
    }
    let rest = slice_subrange(after_tag, 1, after_tag.len());
    proof {
        assert(rest@ =~= after_tag@.drop_first());
    }
    if rest.len() <= len || rest[len] != delimiter {
        return Err(WireErrorKind::MissingDelimiter);
    }
    let rem = slice_subrange(rest, len + 1, rest.len());
    let value = slice_subrange(rest, 0, len);
    proof {
        assert(rem@ =~= rest@.skip(len as int + 1));
        assert(value@ =~= rest@.take(len as int));
    }
    Ok((rem, RawTag { tag, value }))
}

/// Parse a data FIX tag using the standard ASCII SOH delimiter.
pub fn data_tag<'a>(payload: &'a [u8], len: usize) -> (r: Result<
    (&'a [u8], RawTag<'a>),
    WireErrorKind,
>)
    ensures
        match r {
            Ok((rem, t)) => split_data_tag_spec(payload@, crate::SOH, len as nat) == Ok::<
                (Seq<u8>, u16, Seq<u8>),
                WireErrorKind,
            >((rem@, t.tag, t.value@)),
            Err(e) => split_data_tag_spec(payload@, crate::SOH, len as nat) == Err::<
                (Seq<u8>, u16, Seq<u8>),
                WireErrorKind,
            >(e),
        },
{
    data_tag_delimited(crate::SOH, len, payload)
}

} // verus!
