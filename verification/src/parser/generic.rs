//! Leaf decoders: fixed-width big-endian integers, a literal prefix, a run
//! of bytes to pass over, and the variable-length integer.

use vstd::prelude::*;
use vstd::slice::slice_subrange;
use crate::parser::ParserError;

verus! {

/// The number that the two bytes of `s` from `at` spell, high byte first.
pub open spec fn be16(s: Seq<u8>, at: int) -> u16
    recommends
        0 <= at,
        at + 2 <= s.len(),
{
    (s[at] * 0x100 + s[at + 1]) as u16
}

/// The number that the four bytes of `s` from `at` spell, high byte first.
pub open spec fn be32(s: Seq<u8>, at: int) -> u32
    recommends
        0 <= at,
        at + 4 <= s.len(),
{
    (s[at] * 0x100_0000 + s[at + 1] * 0x1_0000 + s[at + 2] * 0x100 + s[at + 3]) as u32
}

/// What reading a field of `width` bytes off the front of `i` comes to,
/// where `outcome` is what the field's bytes map to. A short input is
/// reported first, with the count of bytes that are missing; then the
/// outcome decides, and a value comes with the input after the field.
pub open spec fn took<T>(
    i: Seq<u8>,
    width: int,
    outcome: Result<T, ParserError>,
    r: Result<(&[u8], T), ParserError>,
) -> bool {
    match r {
        Ok((rest, v)) => {
            &&& i.len() >= width
            &&& rest@ == i.skip(width)
            &&& outcome == Ok::<T, ParserError>(v)
        },
        Err(e) => if i.len() < width {
            e == ParserError::short_by(width - i.len())
        } else {
            outcome == Err::<T, ParserError>(e)
        },
    }
}

/// Calls `nom::be_u8`. On an input of one byte or more it gives the first
/// byte and the input after it; on an empty input it gives nothing.
#[verifier::external_body]
fn nom_be_u8(i: &[u8]) -> (r: Option<(&[u8], u8)>)
    ensures
        match r {
            Some((rest, v)) => i@.len() >= 1 && rest@ == i@.skip(1) && v == i@[0],
            None => i@.len() < 1,
        },
{
    match nom::be_u8(i) {
        nom::IResult::Done(rest, v) => Some((rest, v)),
        nom::IResult::Error(_) => None,
        nom::IResult::Incomplete(_) => None,
    }
}

/// Calls `nom::be_u16`. On an input of two bytes or more it gives the number
/// that the first two spell, high byte first, and the input after them; on a
/// shorter input it gives nothing.
#[verifier::external_body]
fn nom_be_u16(i: &[u8]) -> (r: Option<(&[u8], u16)>)
    ensures
        match r {
            Some((rest, v)) => i@.len() >= 2 && rest@ == i@.skip(2) && v == be16(i@, 0),
            None => i@.len() < 2,
        },
{
    match nom::be_u16(i) {
        nom::IResult::Done(rest, v) => Some((rest, v)),
        nom::IResult::Error(_) => None,
        nom::IResult::Incomplete(_) => None,
    }
}

/// Calls `nom::be_u32`. On an input of four bytes or more it gives the
/// number that the first four spell, high byte first, and the input after
/// them; on a shorter input it gives nothing.
#[verifier::external_body]
fn nom_be_u32(i: &[u8]) -> (r: Option<(&[u8], u32)>)
    ensures
        match r {
            Some((rest, v)) => i@.len() >= 4 && rest@ == i@.skip(4) && v == be32(i@, 0),
            None => i@.len() < 4,
        },
{
    match nom::be_u32(i) {
        nom::IResult::Done(rest, v) => Some((rest, v)),
        nom::IResult::Error(_) => None,
        nom::IResult::Incomplete(_) => None,
    }
}

/// Reads one byte.
pub fn read_u8(i: &[u8]) -> (r: Result<(&[u8], u8), ParserError>)
    ensures
        took(i@, 1, Ok(i@[0]), r),
{
    match nom_be_u8(i) {
        Some((rest, v)) => Ok((rest, v)),
        None => Err(ParserError::Incomplete(1 - i.len())),
    }
}

/// Reads a big-endian 16-bit number.
pub fn read_u16(i: &[u8]) -> (r: Result<(&[u8], u16), ParserError>)
    ensures
        took(i@, 2, Ok(be16(i@, 0)), r),
{
    match nom_be_u16(i) {
        Some((rest, v)) => Ok((rest, v)),
        None => Err(ParserError::Incomplete(2 - i.len())),
    }
}

/// Reads a big-endian 32-bit number.
pub fn read_u32(i: &[u8]) -> (r: Result<(&[u8], u32), ParserError>)
    ensures
        took(i@, 4, Ok(be32(i@, 0)), r),
{
    match nom_be_u32(i) {
        Some((rest, v)) => Ok((rest, v)),
        None => Err(ParserError::Incomplete(4 - i.len())),
    }
}

/// Whether `i` and `pattern` hold the same bytes as far as both reach.
pub open spec fn agrees(i: Seq<u8>, pattern: Seq<u8>) -> bool {
    forall|k: int| 0 <= k < i.len() && k < pattern.len() ==> i[k] == pattern[k]
}

/// Whether `i` opens with the whole of `pattern`.
pub open spec fn starts_with(i: Seq<u8>, pattern: Seq<u8>) -> bool {
    pattern.len() <= i.len() && i.take(pattern.len() as int) == pattern
}

/// What looking for `pattern` at the front of `i` comes to: the input after
/// the pattern where `i` opens with it, `None` where a byte differs, and
/// otherwise, `i` being a proper prefix of the pattern, the count of bytes
/// that are missing.
pub open spec fn tagged(i: Seq<u8>, pattern: Seq<u8>, r: Result<Option<&[u8]>, ParserError>) -> bool {
    match r {
        Ok(Some(rest)) => starts_with(i, pattern) && rest@ == i.skip(pattern.len() as int),
        Ok(None) => !agrees(i, pattern),
        Err(e) => agrees(i, pattern) && i.len() < pattern.len() && e == ParserError::short_by(
            pattern.len() - i.len(),
        ),
    }
}

/// Looks for `pattern` at the front of `i`. A byte that differs decides
/// before a short input does.
pub fn tag<'a>(i: &'a [u8], pattern: &[u8]) -> (r: Result<Option<&'a [u8]>, ParserError>)
    ensures
        tagged(i@, pattern@, r),
{
    let reach: usize = if i.len() < pattern.len() {
        i.len()
    } else {
        pattern.len()
    };
    let mut k: usize = 0;
    while k < reach
        invariant
            k <= reach,
            reach <= i@.len(),
            reach <= pattern@.len(),
            forall|j: int| 0 <= j < k ==> i@[j] == pattern@[j],
        decreases reach - k,
    {
        if i[k] != pattern[k] {
            return Ok(None);
        }
        k += 1;
    }
    if reach < pattern.len() {
        Err(ParserError::Incomplete(pattern.len() - reach))
    } else {
        assert(i@.take(pattern@.len() as int) =~= pattern@);
        Ok(Some(slice_subrange(i, reach, i.len())))
    }
}

/// Splits `count` bytes off the front of `i`: gives the input after them,
/// then the bytes themselves.
pub fn take(i: &[u8], count: usize) -> (r: Result<(&[u8], &[u8]), ParserError>)
    ensures
        match r {
            Ok((rest, taken)) => count <= i@.len() && rest@ == i@.skip(count as int) && taken@
                == i@.take(count as int),
            Err(e) => i@.len() < count && e == ParserError::short_by(count - i@.len()),
        },
{
    if i.len() < count {
        Err(ParserError::Incomplete(count - i.len()))
    } else {
        Ok((slice_subrange(i, count, i.len()), slice_subrange(i, 0, count)))
    }
}

/// The number that the first `n` bytes of `s` spell as a variable-length
/// integer: each of the first eight gives its low seven bits, a ninth gives
/// all eight, and the earlier a byte stands the higher its bits.
pub open spec fn varint_value(s: Seq<u8>, n: int) -> int
    recommends
        0 <= n <= 9,
        n <= s.len(),
    decreases n,
{
    if n <= 0 {
        0
    } else if n <= 8 {
        varint_value(s, n - 1) * 0x80 + s[n - 1] % 0x80
    } else {
        varint_value(s, n - 1) * 0x100 + s[n - 1]
    }
}

/// Where a variable-length integer that has not ended before byte `k` of
/// `s` ends: behind the first byte from `k` on whose high bit is clear, and
/// behind the ninth byte at the latest. Where `s` ends first, the result is
/// one more than the length of `s`.
pub open spec fn varint_end(s: Seq<u8>, k: int) -> int
    recommends
        0 <= k,
    decreases 8 - k,
{
    if k >= 8 || k >= s.len() || s[k] < 0x80 {
        k + 1
    } else {
        varint_end(s, k + 1)
    }
}

/// The length of the variable-length integer at the front of `s`; it
/// exceeds the length of `s` exactly when `s` ends inside the integer.
pub open spec fn varint_len(s: Seq<u8>) -> int {
    varint_end(s, 0)
}

/// One more than the largest number that `n` bytes, each giving seven bits,
/// can spell.
pub open spec fn varint_bound(n: int) -> int
    decreases n,
{
    if n <= 0 {
        1
    } else {
        0x80 * varint_bound(n - 1)
    }
}

proof fn lemma_varint_bound(n: int)
    requires
        0 <= n <= 8,
    ensures
        varint_bound(n) <= 0x100_0000_0000_0000,
{
    reveal_with_fuel(varint_bound, 9);
}

/// A variable-length integer takes one byte at least and nine at most.
pub proof fn lemma_varint_len_bounds(s: Seq<u8>)
    ensures
        1 <= varint_len(s) <= 9,
{
    reveal_with_fuel(varint_end, 10);
}

/// A variable-length integer ends with its first byte whose high bit is
/// clear, where that is one of the first eight.
pub proof fn lemma_varint_ends_at_clear_bit(s: Seq<u8>, n: int)
    requires
        1 <= n <= 8,
        n <= s.len(),
        forall|k: int| 0 <= k < n - 1 ==> s[k] >= 0x80,
        s[n - 1] < 0x80,
    ensures
        varint_len(s) == n,
{
    reveal_with_fuel(varint_end, 10);
}

/// After eight bytes with the high bit set the ninth byte ends the
/// variable-length integer whatever its high bit is, and gives all its
/// eight bits.
pub proof fn lemma_varint_ninth_byte(s: Seq<u8>)
    requires
        9 <= s.len(),
        forall|k: int| 0 <= k < 8 ==> s[k] >= 0x80,
    ensures
        varint_len(s) == 9,
        varint_value(s, 9) == varint_value(s, 8) * 0x100 + s[8],
{
    reveal_with_fuel(varint_end, 10);
}

/// An input of fewer than nine bytes, each with the high bit set, ends
/// inside its variable-length integer.
pub proof fn lemma_varint_unfinished(s: Seq<u8>)
    requires
        s.len() < 9,
        forall|k: int| 0 <= k < s.len() ==> s[k] >= 0x80,
    ensures
        varint_len(s) == s.len() + 1,
{
    reveal_with_fuel(varint_end, 10);
}

/// The number that the first `n` bytes spell fits the bits they give: seven
/// each, and eight for a ninth.
pub proof fn lemma_varint_value_bound(s: Seq<u8>, n: int)
    requires
        0 <= n <= 9,
    ensures
        0 <= varint_value(s, n),
        n <= 8 ==> varint_value(s, n) < varint_bound(n),
        n == 9 ==> varint_value(s, n) <= u64::MAX,
    decreases n,
{
    if n > 0 {
        lemma_varint_value_bound(s, n - 1);
        if n == 9 {
            lemma_varint_bound(8);
        }
    }
}

/// Decodes the variable-length integer at the front of `i`: gives the input
/// after it, then its value. Where `i` ends inside the integer, the error
/// counts the bytes that would complete it at its longest, nine bytes.
pub fn parse_varint(i: &[u8]) -> (r: Result<(&[u8], u64), ParserError>)
    ensures
        match r {
            Ok((rest, v)) => varint_len(i@) <= i@.len() && rest@ == i@.skip(varint_len(i@))
                && v == varint_value(i@, varint_len(i@)),
            Err(e) => varint_len(i@) > i@.len() && e == ParserError::short_by(9 - i@.len()),
        },
{
    let mut content: u64 = 0;
    let mut count: usize = 0;
    while count < i.len()
        invariant
            count <= i@.len(),
            count <= 8,
            varint_len(i@) == varint_end(i@, count as int),
            content == varint_value(i@, count as int),
            content < varint_bound(count as int),
        decreases i@.len() - count,
    {
        let c = i[count];
        let ghost before = content;
        proof {
            lemma_varint_bound(count as int);
        }
        if count < 8 {
            content = (content << 7) | ((c & 0x7f) as u64);
            assert(content == before * 0x80 + c % 0x80 && content < 0x80 * (before + 1)) by (bit_vector)
                requires
                    before < 0x100_0000_0000_0000,
                    content == (before << 7) | ((c & 0x7f) as u64),
            ;
            assert(content < varint_bound(count + 1)) by (nonlinear_arith)
                requires
                    content < 0x80 * (before + 1),
                    before < varint_bound(count as int),
                    varint_bound(count + 1) == 0x80 * varint_bound(count as int),
            ;
        } else {
            content = (content << 8) | (c as u64);
            assert(content == before * 0x100 + c) by (bit_vector)
                requires
                    before < 0x100_0000_0000_0000,
                    content == (before << 8) | (c as u64),
            ;
        }
        assert(c & 0x80 == 0 <==> c < 0x80) by (bit_vector);
        if c & 0x80 == 0 || count == 8 {
            return Ok((slice_subrange(i, count + 1, i.len()), content));
        }
        count += 1;
    }
    Err(ParserError::Incomplete(9 - count))
}

} // verus!
