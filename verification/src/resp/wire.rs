//! The wire grammar, as mathematics.
//!
//! Everything here is specification: [`FrameView`] is the abstract value of a
//! frame, [`spec_encode`] is its canonical byte representation, and
//! [`parse_frame`] says what one decode attempt at the head of a byte sequence
//! yields. The executable codec is proved against these definitions.
//!
//! A frame starts with a prefix byte that tells its kind:
//!
//! - `+<text>\r\n`, a simple string;
//! - `-<text>\r\n`, a simple error;
//! - `$<len>\r\n<len bytes>\r\n`, a bulk string, and `$-1\r\n`, the null
//!   bulk string;
//! - `*<count>\r\n` and then `count` frames, an array, and `*-1\r\n`, the
//!   null array;
//! - `_\r\n`, the null frame.
//!
//! A length or a count is written in decimal digits. The decoder accepts
//! leading zeros, but no sign and nothing else besides digits, and no
//! number that a `usize` cannot hold.

use vstd::prelude::*;
use vstd::utf8::*;
use super::text::utf8_lossy;
use super::RespError;

verus! {

/// Carriage return, the first byte of a line terminator.
pub const CR: u8 = 13;

/// Line feed, the second byte of a line terminator.
pub const LF: u8 = 10;

/// Prefix byte of a simple string, `+`.
pub const SIMPLE_STRING_PREFIX: u8 = 43;

/// Prefix byte of a simple error, `-`.
pub const SIMPLE_ERROR_PREFIX: u8 = 45;

/// Prefix byte of a bulk string and of the null bulk string, `$`.
pub const BULK_STRING_PREFIX: u8 = 36;

/// Prefix byte of an array and of the null array, `*`.
pub const ARRAY_PREFIX: u8 = 42;

/// Prefix byte of the null frame, `_`.
pub const NULL_PREFIX: u8 = 95;

/// How many arrays may be nested inside one another in a frame that the
/// decoder accepts. A frame at the top level that is not an array has
/// nesting zero; an array of scalars has nesting one. Input that nests
/// deeper is rejected as malformed, which bounds the decoder's recursion.
pub const MAX_DEPTH: usize = 32;

/// The abstract value of a frame.
pub enum FrameView {
    SimpleString(Seq<char>),
    Error(Seq<char>),
    BulkString(Seq<u8>),
    NullBulkString,
    Array(Seq<FrameView>),
    NullArray,
    Null,
}

/// The two bytes that end a line.
pub open spec fn crlf() -> Seq<u8> {
    seq![CR, LF]
}

/// A line terminator starts at index `i` of `b`.
pub open spec fn crlf_at(b: Seq<u8>, i: int) -> bool {
    0 <= i && i + 1 < b.len() && b[i] == CR && b[i + 1] == LF
}

/// The index of the first line terminator of `b` that starts at `from` or
/// later, if there is one.
pub open spec fn first_crlf(b: Seq<u8>, from: int) -> Option<int>
    decreases b.len() - from,
{
    if from + 1 >= b.len() {
        None
    } else if crlf_at(b, from) {
        Some(from)
    } else {
        first_crlf(b, from + 1)
    }
}

/// No line terminator occurs anywhere in `b`.
pub open spec fn no_crlf(b: Seq<u8>) -> bool {
    forall|i: int| !crlf_at(b, i)
}

/// The text that a line's payload bytes stand for: their UTF-8 decoding
/// where they are valid UTF-8, and the lossy repair of them otherwise.
pub open spec fn text_of(bytes: Seq<u8>) -> Seq<char> {
    if valid_utf8(bytes) {
        decode_utf8(bytes)
    } else {
        utf8_lossy(bytes)
    }
}

/// `c` is an ASCII decimal digit.
pub open spec fn is_digit(c: u8) -> bool {
    48 <= c <= 57
}

/// `s` is a non-empty run of ASCII decimal digits.
pub open spec fn is_decimal(s: Seq<u8>) -> bool {
    s.len() > 0 && forall|i: int| 0 <= i < s.len() ==> is_digit(#[trigger] s[i])
}

/// The number that a run of decimal digits denotes.
pub open spec fn decimal_value(s: Seq<u8>) -> nat
    decreases s.len(),
{
    if s.len() == 0 {
        0
    } else {
        decimal_value(s.drop_last()) * 10 + (s.last() - 48) as nat
    }
}

/// The canonical decimal digits of `n`: no sign, no leading zero.
pub open spec fn decimal(n: nat) -> Seq<u8>
    decreases n,
{
    if n < 10 {
        seq![(48 + n) as u8]
    } else {
        decimal(n / 10).push((48 + n % 10) as u8)
    }
}

/// What the length header of a bulk string or an array says.
pub enum Header {
    /// The header's line terminator has not arrived yet.
    Incomplete,
    /// The header line is neither `-1` nor a decimal number that fits.
    Invalid,
    /// The header is `-1`: the explicit null. `used` bytes make up the header.
    Null { used: nat },
    /// The header announces `count` bytes or elements and is `used` bytes long.
    Count { count: nat, used: nat },
}

/// Reads the header line that follows the prefix byte of `b`.
pub open spec fn parse_header(b: Seq<u8>) -> Header {
    match first_crlf(b, 1) {
        None => Header::Incomplete,
        Some(end) => {
            let line = b.subrange(1, end);
            if line == seq![45u8, 49u8] {
                Header::Null { used: (end + 2) as nat }
            } else if is_decimal(line) && decimal_value(line) <= usize::MAX {
                Header::Count { count: decimal_value(line), used: (end + 2) as nat }
            } else {
                Header::Invalid
            }
        },
    }
}

/// Decodes a line-delimited frame: the text between the prefix byte and the
/// first line terminator, and the number of bytes up to and including it.
pub open spec fn parse_line(b: Seq<u8>) -> Result<(Seq<char>, nat), RespError> {
    match first_crlf(b, 1) {
        None => Err(RespError::NotComplete),
        Some(end) => Ok((text_of(b.subrange(1, end)), (end + 2) as nat)),
    }
}

/// Decodes a bulk string or the null bulk string (`None`).
pub open spec fn parse_bulk(b: Seq<u8>) -> Result<(Option<Seq<u8>>, nat), RespError> {
    match parse_header(b) {
        Header::Incomplete => Err(RespError::NotComplete),
        Header::Invalid => Err(RespError::Malformed),
        Header::Null { used } => Ok((None, used)),
        Header::Count { count, used } => {
            let start = used as int;
            let end = start + count;
            if end + 2 > usize::MAX {
                Err(RespError::Malformed)
            } else if b.len() < end + 2 {
                Err(RespError::NotComplete)
            } else if b[end] == CR && b[end + 1] == LF {
                Ok((Some(b.subrange(start, end)), (end + 2) as nat))
            } else {
                Err(RespError::Malformed)
            }
        },
    }
}

/// Decodes the null frame: its prefix byte and a line terminator.
pub open spec fn parse_null(b: Seq<u8>) -> Result<nat, RespError> {
    if b.len() < 3 {
        Err(RespError::NotComplete)
    } else if b[1] == CR && b[2] == LF {
        Ok(3nat)
    } else {
        Err(RespError::Malformed)
    }
}

/// What one decode attempt at the head of `b` yields when arrays may still
/// nest `depth` deep: the frame and the number of bytes it occupies, or the
/// reason why there is no frame.
///
/// The first byte alone selects the routine. Bytes after the frame are
/// never looked at.
pub open spec fn parse_frame(b: Seq<u8>, depth: nat) -> Result<(FrameView, nat), RespError>
    decreases depth, 0nat,
{
    if b.len() == 0 {
        Err(RespError::NotComplete)
    } else if b[0] == SIMPLE_STRING_PREFIX {
        match parse_line(b) {
            Ok((text, used)) => Ok((FrameView::SimpleString(text), used)),
            Err(e) => Err(e),
        }
    } else if b[0] == SIMPLE_ERROR_PREFIX {
        match parse_line(b) {
            Ok((text, used)) => Ok((FrameView::Error(text), used)),
            Err(e) => Err(e),
        }
    } else if b[0] == BULK_STRING_PREFIX {
        match parse_bulk(b) {
            Ok((Some(data), used)) => Ok((FrameView::BulkString(data), used)),
            Ok((None, used)) => Ok((FrameView::NullBulkString, used)),
            Err(e) => Err(e),
        }
    } else if b[0] == NULL_PREFIX {
        match parse_null(b) {
            Ok(used) => Ok((FrameView::Null, used)),
            Err(e) => Err(e),
        }
    } else if b[0] == ARRAY_PREFIX {
        match parse_header(b) {
            Header::Incomplete => Err(RespError::NotComplete),
            Header::Invalid => Err(RespError::Malformed),
            Header::Null { used } => Ok((FrameView::NullArray, used)),
            Header::Count { count, used } => {
                if depth == 0 {
                    Err(RespError::Malformed)
                } else {
                    match parse_items(b.skip(used as int), count, (depth - 1) as nat) {
                        Ok((items, len)) => Ok((FrameView::Array(items), used + len)),
                        Err(e) => Err(e),
                    }
                }
            },
        }
    } else {
        Err(RespError::Malformed)
    }
}

/// Decodes `count` frames one after another from the head of `b`. All of
/// them must be there: the first failure is the result.
pub open spec fn parse_items(b: Seq<u8>, count: nat, depth: nat) -> Result<
    (Seq<FrameView>, nat),
    RespError,
>
    decreases depth, count + 1,
{
    if count == 0 {
        Ok((Seq::empty(), 0nat))
    } else {
        match parse_frame(b, depth) {
            Err(e) => Err(e),
            Ok((first, used)) => match parse_items(b.skip(used as int), (count - 1) as nat, depth) {
                Err(e) => Err(e),
                Ok((rest, len)) => Ok((seq![first] + rest, used + len)),
            },
        }
    }
}

/// `used` bytes and then what `rest` says: their sum, unless no buffer
/// could hold that many bytes.
pub open spec fn add_span(used: nat, rest: Result<nat, RespError>) -> Result<nat, RespError> {
    match rest {
        Ok(len) => if used + len > usize::MAX {
            Err(RespError::Malformed)
        } else {
            Ok(used + len)
        },
        Err(e) => Err(e),
    }
}

/// The number of bytes that the frame at the head of `b` occupies, as far
/// as `b` already tells, when arrays may still nest `depth` deep.
///
/// A line says so once its terminator is there. A bulk string says so once
/// its header is there, before its bytes are. An array says so once each of
/// its elements does and all of them but the last have arrived in full.
pub open spec fn frame_span(b: Seq<u8>, depth: nat) -> Result<nat, RespError>
    decreases depth, 0nat,
{
    if b.len() == 0 {
        Err(RespError::NotComplete)
    } else if b[0] == SIMPLE_STRING_PREFIX || b[0] == SIMPLE_ERROR_PREFIX {
        match first_crlf(b, 1) {
            None => Err(RespError::NotComplete),
            Some(end) => Ok((end + 2) as nat),
        }
    } else if b[0] == BULK_STRING_PREFIX {
        match parse_header(b) {
            Header::Incomplete => Err(RespError::NotComplete),
            Header::Invalid => Err(RespError::Malformed),
            Header::Null { used } => Ok(used),
            Header::Count { count, used } => add_span(used, Ok(count + 2)),
        }
    } else if b[0] == NULL_PREFIX {
        parse_null(b)
    } else if b[0] == ARRAY_PREFIX {
        match parse_header(b) {
            Header::Incomplete => Err(RespError::NotComplete),
            Header::Invalid => Err(RespError::Malformed),
            Header::Null { used } => Ok(used),
            Header::Count { count, used } => {
                if depth == 0 {
                    Err(RespError::Malformed)
                } else {
                    add_span(used, items_span(b.skip(used as int), count, (depth - 1) as nat))
                }
            },
        }
    } else {
        Err(RespError::Malformed)
    }
}

/// The number of bytes that `count` frames at the head of `b` occupy
/// together. A frame whose end lies beyond `b` hides where the next
/// begins, so only the last may do so.
pub open spec fn items_span(b: Seq<u8>, count: nat, depth: nat) -> Result<nat, RespError>
    decreases depth, count + 1,
{
    if count == 0 {
        Ok(0nat)
    } else {
        match frame_span(b, depth) {
            Err(e) => Err(e),
            Ok(first) => {
                if count == 1 {
                    Ok(first)
                } else if first > b.len() {
                    Err(RespError::NotComplete)
                } else {
                    add_span(first, items_span(b.skip(first as int), (count - 1) as nat, depth))
                }
            },
        }
    }
}

/// The canonical byte representation of a frame.
pub open spec fn spec_encode(v: FrameView) -> Seq<u8>
    decreases v, 0nat,
{
    match v {
        FrameView::SimpleString(text) => seq![SIMPLE_STRING_PREFIX] + encode_utf8(text) + crlf(),
        FrameView::Error(text) => seq![SIMPLE_ERROR_PREFIX] + encode_utf8(text) + crlf(),
        FrameView::BulkString(data) => seq![BULK_STRING_PREFIX] + decimal(data.len()) + crlf()
            + data + crlf(),
        FrameView::NullBulkString => seq![BULK_STRING_PREFIX, 45u8, 49u8, CR, LF],
        FrameView::Array(items) => seq![ARRAY_PREFIX] + decimal(items.len()) + crlf()
            + encode_from(items, 0),
        FrameView::NullArray => seq![ARRAY_PREFIX, 45u8, 49u8, CR, LF],
        FrameView::Null => seq![NULL_PREFIX, CR, LF],
    }
}

/// The representations of `items[from..]`, one after another.
pub open spec fn encode_from(items: Seq<FrameView>, from: int) -> Seq<u8>
    decreases items, items.len() - from,
{
    if 0 <= from < items.len() {
        spec_encode(items[from]) + encode_from(items, from + 1)
    } else {
        Seq::empty()
    }
}

/// A frame whose representation decodes to itself: no simple string or
/// simple error in it holds a line terminator.
pub open spec fn wire_safe(v: FrameView) -> bool
    decreases v,
{
    match v {
        FrameView::SimpleString(text) => no_crlf(encode_utf8(text)),
        FrameView::Error(text) => no_crlf(encode_utf8(text)),
        FrameView::Array(items) => forall|i: int|
            0 <= i < items.len() ==> wire_safe(#[trigger] items[i]),
        _ => true,
    }
}

/// Arrays in `v` nest at most `depth` deep.
pub open spec fn nests_within(v: FrameView, depth: nat) -> bool
    decreases v,
{
    match v {
        FrameView::Array(items) => depth > 0 && forall|i: int|
            0 <= i < items.len() ==> nests_within(#[trigger] items[i], (depth - 1) as nat),
        _ => true,
    }
}

} // verus!
