//! Bulk strings, `$<len>\r\n<bytes>\r\n`, and the null bulk string,
//! `$-1\r\n`.

use vstd::prelude::*;
use vstd::slice::slice_to_vec;
use vstd::std_specs::convert::FromSpecImpl;
use vstd::utf8::*;
use bytes::BytesMut;
use super::buffer::{buffered, consume};
use super::scan::{push_decimal, read_bulk};
use super::wire::{parse_bulk, spec_encode, FrameView, BULK_STRING_PREFIX, CR, LF};
use super::RespError;

verus! {

/// A binary-safe string: any bytes, with their length sent ahead of them.
#[derive(Debug, PartialEq, Eq, PartialOrd)]
pub struct BulkString(pub Vec<u8>);

/// The explicit null bulk string.
#[derive(Debug, Clone, Copy, PartialEq, Eq, PartialOrd)]
pub struct RespNullBulkString;

impl View for BulkString {
    type V = Seq<u8>;

    open spec fn view(&self) -> Seq<u8> {
        self.0@
    }
}

impl Clone for BulkString {
    fn clone(&self) -> (r: BulkString)
        ensures
            r@ == self@,
    {
        BulkString(self.0.clone())
    }
}

impl FromSpecImpl<&str> for BulkString {
    open spec fn obeys_from_spec() -> bool {
        false
    }

    open spec fn from_spec(s: &str) -> BulkString {
        arbitrary()
    }
}

impl From<&str> for BulkString {
    /// The bulk string that holds the text's UTF-8 bytes.
    fn from(s: &str) -> (r: BulkString)
        ensures
            r@ == encode_utf8(s@),
    {
        BulkString(slice_to_vec(s.as_bytes()))
    }
}

impl FromSpecImpl<&[u8]> for BulkString {
    open spec fn obeys_from_spec() -> bool {
        false
    }

    open spec fn from_spec(s: &[u8]) -> BulkString {
        arbitrary()
    }
}

impl From<&[u8]> for BulkString {
    fn from(s: &[u8]) -> (r: BulkString)
        ensures
            r@ == s@,
    {
        BulkString(slice_to_vec(s))
    }
}

impl<const N: usize> FromSpecImpl<&[u8; N]> for BulkString {
    open spec fn obeys_from_spec() -> bool {
        false
    }

    open spec fn from_spec(s: &[u8; N]) -> BulkString {
        arbitrary()
    }
}

impl<const N: usize> From<&[u8; N]> for BulkString {
    fn from(s: &[u8; N]) -> (r: BulkString)
        ensures
            r@ == s@,
    {
        BulkString(slice_to_vec(s.as_slice()))
    }
}

impl BulkString {
    /// What a decode attempt for a bulk string yields at the head of `b`:
    /// the bytes and the number of bytes that the frame occupies. The null
    /// bulk string is no bulk string.
    pub open spec fn spec_decode(b: Seq<u8>) -> Result<(Seq<u8>, nat), RespError> {
        if b.len() == 0 {
            Err(RespError::NotComplete)
        } else if b[0] != BULK_STRING_PREFIX {
            Err(RespError::Malformed)
        } else {
            match parse_bulk(b) {
                Ok((Some(data), used)) => Ok((data, used)),
                Ok((None, _)) => Err(RespError::Malformed),
                Err(e) => Err(e),
            }
        }
    }

    /// The bulk string that holds `data`.
    pub fn new(data: Vec<u8>) -> (r: BulkString)
        ensures
            r@ == data@,
    {
        BulkString(data)
    }

    /// The frame's bytes: the prefix, the length in decimal, a line
    /// terminator, the bytes themselves, a line terminator.
    pub fn encode(self) -> (out: Vec<u8>)
        ensures
            out@ == spec_encode(FrameView::BulkString(self@)),
    {
        let mut out: Vec<u8> = Vec::new();
        self.encode_into(&mut out);
        out
    }

    pub(crate) fn encode_into(&self, out: &mut Vec<u8>)
        ensures
            final(out)@ == old(out)@ + spec_encode(FrameView::BulkString(self@)),
    {
        out.push(BULK_STRING_PREFIX);
        push_decimal(out, self.0.len());
        out.push(CR);
        out.push(LF);
        out.extend_from_slice(self.0.as_slice());
        out.push(CR);
        out.push(LF);
    }

    /// Decodes a bulk string at the head of `buf` without touching
    /// anything: the frame and the number of bytes it occupies.
    pub(crate) fn parse(buf: &[u8]) -> (r: Result<(BulkString, usize), RespError>)
        ensures
            match r {
                Ok((s, used)) => Self::spec_decode(buf@) == Ok::<(Seq<u8>, nat), RespError>(
                    (s@, used as nat),
                ) && used <= buf@.len(),
                Err(e) => Self::spec_decode(buf@) == Err::<(Seq<u8>, nat), RespError>(e),
            },
    {
        if buf.len() == 0 {
            Err(RespError::NotComplete)
        } else if buf[0] != BULK_STRING_PREFIX {
            Err(RespError::Malformed)
        } else {
            match read_bulk(buf) {
                Ok((Some(data), used)) => Ok((BulkString(data), used)),
                Ok((None, _)) => Err(RespError::Malformed),
                Err(e) => Err(e),
            }
        }
    }

    /// Extracts one bulk string from the head of `buf`.
    ///
    /// On success the frame's bytes are removed from the buffer and what
    /// follows them stays. On failure the buffer is left as it was.
    pub fn decode(buf: &mut BytesMut) -> (r: Result<BulkString, RespError>)
        ensures
            match Self::spec_decode(buffered(old(buf))) {
                Ok((data, used)) => r matches Ok(s) && s@ == data && buffered(final(buf))
                    == buffered(old(buf)).skip(used as int),
                Err(e) => r == Err::<BulkString, RespError>(e) && buffered(final(buf))
                    == buffered(old(buf)),
            },
    {
        let view: &BytesMut = &*buf;
        let parsed = Self::parse(&**view);
        match parsed {
            Ok((s, used)) => {
                consume(buf, used);
                Ok(s)
            },
            Err(e) => Err(e),
        }
    }
}

impl RespNullBulkString {
    /// What a decode attempt for the null bulk string yields at the head of
    /// `b`: the number of bytes that the frame occupies.
    pub open spec fn spec_decode(b: Seq<u8>) -> Result<nat, RespError> {
        if b.len() == 0 {
            Err(RespError::NotComplete)
        } else if b[0] != BULK_STRING_PREFIX {
            Err(RespError::Malformed)
        } else {
            match parse_bulk(b) {
                Ok((None, used)) => Ok(used),
                Ok((Some(_), _)) => Err(RespError::Malformed),
                Err(e) => Err(e),
            }
        }
    }

    /// The frame's bytes, `$-1\r\n`.
    pub fn encode(self) -> (out: Vec<u8>)
        ensures
            out@ == spec_encode(FrameView::NullBulkString),
    {
        let mut out: Vec<u8> = Vec::new();
        self.encode_into(&mut out);
        out
    }

    pub(crate) fn encode_into(&self, out: &mut Vec<u8>)
        ensures
            final(out)@ == old(out)@ + spec_encode(FrameView::NullBulkString),
    {
        out.push(BULK_STRING_PREFIX);
        out.push(45);
        out.push(49);
        out.push(CR);
        out.push(LF);
    }

    pub(crate) fn parse(buf: &[u8]) -> (r: Result<(RespNullBulkString, usize), RespError>)
        ensures
            match r {
                Ok((_, used)) => Self::spec_decode(buf@) == Ok::<nat, RespError>(used as nat)
                    && used <= buf@.len(),
                Err(e) => Self::spec_decode(buf@) == Err::<nat, RespError>(e),
            },
    {
        if buf.len() == 0 {
            Err(RespError::NotComplete)
        } else if buf[0] != BULK_STRING_PREFIX {
            Err(RespError::Malformed)
        } else {
            match read_bulk(buf) {
                Ok((None, used)) => Ok((RespNullBulkString, used)),
                Ok((Some(_), _)) => Err(RespError::Malformed),
                Err(e) => Err(e),
            }
        }
    }

    /// Extracts the null bulk string from the head of `buf`.
    ///
    /// On success the frame's bytes are removed from the buffer and what
    /// follows them stays. On failure the buffer is left as it was.
    pub fn decode(buf: &mut BytesMut) -> (r: Result<RespNullBulkString, RespError>)
        ensures
            match Self::spec_decode(buffered(old(buf))) {
                Ok(used) => r is Ok && buffered(final(buf)) == buffered(old(buf)).skip(
                    used as int,
                ),
                Err(e) => r == Err::<RespNullBulkString, RespError>(e) && buffered(final(buf))
                    == buffered(old(buf)),
            },
    {
        let view: &BytesMut = &*buf;
        let parsed = Self::parse(&**view);
        match parsed {
            Ok((s, used)) => {
                consume(buf, used);
                Ok(s)
            },
            Err(e) => Err(e),
        }
    }
}

} // verus!
