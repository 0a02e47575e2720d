//! Scanning primitives shared by the decoders and encoders: finding the end
//! of a line, and reading and writing decimal numbers.

use vstd::prelude::*;
use vstd::slice::{slice_subrange, slice_to_vec};
use vstd::utf8::*;
use super::text::lossy_text;
use super::wire::{
    crlf_at, decimal, decimal_value, first_crlf, is_decimal, is_digit, no_crlf, parse_bulk,
    parse_header, parse_line, parse_null, Header, CR, LF,
};
use super::RespError;

verus! {

/// What `first_crlf` finds is a line terminator at or after `from`, and the
/// earliest one; where it finds nothing there is none.
pub proof fn lemma_first_crlf(b: Seq<u8>, from: int)
    requires
        0 <= from,
    ensures
        match first_crlf(b, from) {
            Some(end) => from <= end && crlf_at(b, end) && forall|j: int|
                from <= j < end ==> !crlf_at(b, j),
            None => forall|j: int| from <= j ==> !crlf_at(b, j),
        },
    decreases b.len() - from,
{
    if from + 1 >= b.len() {
    } else if crlf_at(b, from) {
    } else {
        lemma_first_crlf(b, from + 1);
    }
}

/// The earliest line terminator at or after `from` is what `first_crlf`
/// finds.
pub proof fn lemma_first_crlf_found(b: Seq<u8>, from: int, end: int)
    requires
        0 <= from <= end,
        crlf_at(b, end),
        forall|j: int| from <= j < end ==> !crlf_at(b, j),
    ensures
        first_crlf(b, from) == Some(end),
    decreases end - from,
{
    if from < end {
        lemma_first_crlf_found(b, from + 1, end);
    }
}

/// Where no line terminator starts at or after `from`, `first_crlf` finds
/// nothing.
pub proof fn lemma_first_crlf_absent(b: Seq<u8>, from: int)
    requires
        0 <= from,
        forall|j: int| from <= j ==> !crlf_at(b, j),
    ensures
        first_crlf(b, from) is None,
    decreases b.len() - from,
{
    if from + 1 < b.len() {
        lemma_first_crlf_absent(b, from + 1);
    }
}

/// A run of digits denotes at least what any of its prefixes denotes.
pub proof fn lemma_decimal_value_grows(s: Seq<u8>, k: int)
    requires
        0 <= k <= s.len(),
        forall|i: int| 0 <= i < s.len() ==> is_digit(#[trigger] s[i]),
    ensures
        decimal_value(s.take(k)) <= decimal_value(s),
    decreases s.len() - k,
{
    if k < s.len() {
        let longer = s.take(k + 1);
        assert(longer.drop_last() =~= s.take(k));
        lemma_decimal_value_grows(s, k + 1);
    } else {
        assert(s.take(k) =~= s);
    }
}

/// The canonical digits of `n` are a decimal number, and denote `n`.
pub proof fn lemma_decimal_roundtrip(n: nat)
    ensures
        is_decimal(decimal(n)),
        decimal_value(decimal(n)) == n,
    decreases n,
{
    if n < 10 {
        let s = decimal(n);
        assert(decimal_value(s.drop_last()) == 0);
    } else {
        lemma_decimal_roundtrip(n / 10);
        let head = decimal(n / 10);
        let s = decimal(n);
        assert(s.drop_last() =~= head);
        assert forall|i: int| 0 <= i < s.len() implies is_digit(#[trigger] s[i]) by {}
    }
}

/// Finds the first line terminator of `buf` that starts at `from` or later.
pub(crate) fn find_crlf(buf: &[u8], from: usize) -> (r: Option<usize>)
    ensures
        match r {
            Some(end) => first_crlf(buf@, from as int) == Some(end as int) && from <= end && end
                + 1 < buf@.len() <= usize::MAX,
            None => first_crlf(buf@, from as int) is None,
        },
{
    if from >= buf.len() {
        return None;
    }
    let last = buf.len() - 1;
    let mut i = from;
    while i < last
        invariant
            from <= i <= last,
            last + 1 == buf@.len(),
            first_crlf(buf@, from as int) == first_crlf(buf@, i as int),
        decreases last - i,
    {
        if buf[i] == CR && buf[i + 1] == LF {
            return Some(i);
        }
        i += 1;
    }
    None
}

/// Whether a text can travel on one line: whether its UTF-8 bytes hold no
/// line terminator.
pub(crate) fn is_line_safe(text: &str) -> (safe: bool)
    ensures
        safe == no_crlf(encode_utf8(text@)),
{
    let bytes = text.as_bytes();
    proof {
        lemma_first_crlf(bytes@, 0);
    }
    match find_crlf(bytes, 0) {
        None => true,
        Some(_) => false,
    }
}

/// Reads `buf[start..end]` as a decimal number.
///
/// Returns the number where those bytes are a non-empty run of ASCII digits
/// whose value fits in `usize`, and `None` otherwise.
pub(crate) fn parse_decimal(buf: &[u8], start: usize, end: usize) -> (r: Option<usize>)
    requires
        start <= end <= buf@.len(),
    ensures
        match r {
            Some(n) => is_decimal(buf@.subrange(start as int, end as int)) && decimal_value(
                buf@.subrange(start as int, end as int),
            ) == n,
            None => !(is_decimal(buf@.subrange(start as int, end as int)) && decimal_value(
                buf@.subrange(start as int, end as int),
            ) <= usize::MAX),
        },
{
    let ghost digits = buf@.subrange(start as int, end as int);
    if start >= end {
        return None;
    }
    let mut acc: usize = 0;
    let mut i = start;
    while i < end
        invariant
            start <= i <= end <= buf@.len(),
            digits == buf@.subrange(start as int, end as int),
            forall|j: int| 0 <= j < i - start ==> is_digit(#[trigger] digits[j]),
            acc == decimal_value(digits.take(i - start)),
        decreases end - i,
    {
        let c = buf[i];
        assert(digits[i - start] == c);
        if c < 48 || c > 57 {
            return None;
        }
        let d = (c - 48) as usize;
        proof {
            let longer = digits.take(i - start + 1);
            assert(longer.drop_last() =~= digits.take(i - start));
            if is_decimal(digits) {
                lemma_decimal_value_grows(digits, i - start + 1);
            }
        }
        if acc > (usize::MAX - d) / 10 {
            return None;
        }
        acc = acc * 10 + d;
        i += 1;
    }
    assert(digits.take(i - start) =~= digits);
    Some(acc)
}

/// Reads the header line of a bulk string or an array from the head of
/// `buf`, whose first byte is the prefix.
///
/// `Ok((None, used))` is the null header `-1`; `Ok((Some(count), used))` is
/// a count; `used` is the length of the header with its line terminator.
pub(crate) fn read_header(buf: &[u8]) -> (r: Result<(Option<usize>, usize), RespError>)
    ensures
        match r {
            Ok((None, used)) => parse_header(buf@) == (Header::Null { used: used as nat }),
            Ok((Some(count), used)) => parse_header(buf@) == (Header::Count {
                count: count as nat,
                used: used as nat,
            }),
            Err(RespError::NotComplete) => parse_header(buf@) == Header::Incomplete,
            Err(RespError::Malformed) => parse_header(buf@) == Header::Invalid,
        },
        r matches Ok((_, used)) ==> 3 <= used <= buf@.len(),
{
    match find_crlf(buf, 1) {
        None => Err(RespError::NotComplete),
        Some(end) => {
            let ghost line = buf@.subrange(1, end as int);
            let used = end + 2;
            if end == 3 && buf[1] == 45 && buf[2] == 49 {
                assert(line =~= seq![45u8, 49u8]);
                Ok((None, used))
            } else {
                match parse_decimal(buf, 1, end) {
                    Some(count) => Ok((Some(count), used)),
                    None => Err(RespError::Malformed),
                }
            }
        },
    }
}

/// Decodes a line-delimited frame at the head of `buf`, whose first byte is
/// the prefix: the text up to the first line terminator, and the number of
/// bytes up to and including that terminator.
pub(crate) fn read_line(buf: &[u8]) -> (r: Result<(String, usize), RespError>)
    ensures
        match r {
            Ok((text, used)) => parse_line(buf@) == Ok::<(Seq<char>, nat), RespError>(
                (text@, used as nat),
            ),
            Err(e) => parse_line(buf@) == Err::<(Seq<char>, nat), RespError>(e),
        },
        r matches Ok((_, used)) ==> 3 <= used <= buf@.len(),
{
    match find_crlf(buf, 1) {
        None => Err(RespError::NotComplete),
        Some(end) => {
            let text = lossy_text(slice_subrange(buf, 1, end));
            Ok((text, end + 2))
        },
    }
}

/// Decodes a bulk string at the head of `buf`, whose first byte is the
/// prefix. `None` stands for the null bulk string.
pub(crate) fn read_bulk(buf: &[u8]) -> (r: Result<(Option<Vec<u8>>, usize), RespError>)
    ensures
        match r {
            Ok((Some(data), used)) => parse_bulk(buf@) == Ok::<
                (Option<Seq<u8>>, nat),
                RespError,
            >((Some(data@), used as nat)),
            Ok((None, used)) => parse_bulk(buf@) == Ok::<(Option<Seq<u8>>, nat), RespError>(
                (None, used as nat),
            ),
            Err(e) => parse_bulk(buf@) == Err::<(Option<Seq<u8>>, nat), RespError>(e),
        },
        r matches Ok((_, used)) ==> 3 <= used <= buf@.len(),
{
    match read_header(buf) {
        Err(e) => Err(e),
        Ok((None, used)) => Ok((None, used)),
        Ok((Some(count), used)) => {
            let len = buf.len();
            if count > usize::MAX - 2 || used > usize::MAX - 2 - count {
                return Err(RespError::Malformed);
            }
            let end = used + count;
            if len < end + 2 {
                return Err(RespError::NotComplete);
            }
            if buf[end] == CR && buf[end + 1] == LF {
                let data = slice_to_vec(slice_subrange(buf, used, end));
                Ok((Some(data), end + 2))
            } else {
                Err(RespError::Malformed)
            }
        },
    }
}

/// Decodes the null frame at the head of `buf`, whose first byte is the
/// prefix.
pub(crate) fn read_null(buf: &[u8]) -> (r: Result<usize, RespError>)
    ensures
        match r {
            Ok(used) => parse_null(buf@) == Ok::<nat, RespError>(used as nat),
            Err(e) => parse_null(buf@) == Err::<nat, RespError>(e),
        },
        r matches Ok(used) ==> 3 <= used <= buf@.len(),
{
    if buf.len() < 3 {
        Err(RespError::NotComplete)
    } else if buf[1] == CR && buf[2] == LF {
        Ok(3)
    } else {
        Err(RespError::Malformed)
    }
}

/// Appends the canonical decimal digits of `n` to `out`.
pub(crate) fn push_decimal(out: &mut Vec<u8>, n: usize)
    ensures
        final(out)@ == old(out)@ + decimal(n as nat),
    decreases n,
{
    if n < 10 {
        out.push(48 + n as u8);
    } else {
        push_decimal(out, n / 10);
        out.push(48 + (n % 10) as u8);
    }
}

} // verus!
