//! Simple strings: `+<text>\r\n`.

use vstd::prelude::*;
use vstd::std_specs::convert::FromSpecImpl;
use bytes::BytesMut;
use std::ops::Deref;
use super::buffer::{buffered, consume};
use super::scan::{is_line_safe, read_line};
use super::wire::{parse_line, spec_encode, wire_safe, FrameView, CR, LF, SIMPLE_STRING_PREFIX};
use super::RespError;

verus! {

/// A short status text. It travels on one line, so it decodes to itself
/// only if it holds no line terminator.
#[derive(Debug, PartialEq, Eq, PartialOrd)]
pub struct SimpleString(pub String);

impl View for SimpleString {
    type V = Seq<char>;

    open spec fn view(&self) -> Seq<char> {
        self.0@
    }
}

impl Clone for SimpleString {
    fn clone(&self) -> (r: SimpleString)
        ensures
            r@ == self@,
    {
        SimpleString(self.0.clone())
    }
}

impl Deref for SimpleString {
    type Target = String;

    fn deref(&self) -> (s: &String)
        ensures
            s@ == self@,
    {
        &self.0
    }
}

impl AsRef<str> for SimpleString {
    fn as_ref(&self) -> (s: &str)
        ensures
            s@ == self@,
    {
        self.0.as_str()
    }
}

impl FromSpecImpl<&str> for SimpleString {
    open spec fn obeys_from_spec() -> bool {
        false
    }

    open spec fn from_spec(s: &str) -> SimpleString {
        arbitrary()
    }
}

impl From<&str> for SimpleString {
    fn from(s: &str) -> (r: SimpleString)
        ensures
            r@ == s@,
    {
        SimpleString(s.to_owned())
    }
}

impl SimpleString {
    /// What a decode attempt for a simple string yields at the head of `b`:
    /// the text and the number of bytes that the frame occupies.
    pub open spec fn spec_decode(b: Seq<u8>) -> Result<(Seq<char>, nat), RespError> {
        if b.len() == 0 {
            Err(RespError::NotComplete)
        } else if b[0] != SIMPLE_STRING_PREFIX {
            Err(RespError::Malformed)
        } else {
            parse_line(b)
        }
    }

    /// The simple string that holds `s`.
    pub fn new(s: String) -> (r: SimpleString)
        ensures
            r@ == s@,
    {
        SimpleString(s)
    }

    /// The text.
    pub fn as_str(&self) -> (s: &str)
        ensures
            s@ == self@,
    {
        self.0.as_str()
    }

    /// Whether the text holds no line terminator, so that the frame decodes
    /// to itself.
    pub fn is_wire_safe(&self) -> (safe: bool)
        ensures
            safe == wire_safe(FrameView::SimpleString(self@)),
    {
        is_line_safe(self.0.as_str())
    }

    /// The frame's bytes: the prefix, the text in UTF-8, a line terminator.
    pub fn encode(self) -> (out: Vec<u8>)
        ensures
            out@ == spec_encode(FrameView::SimpleString(self@)),
    {
        let mut out: Vec<u8> = Vec::new();
        self.encode_into(&mut out);
        out
    }

    pub(crate) fn encode_into(&self, out: &mut Vec<u8>)
        ensures
            final(out)@ == old(out)@ + spec_encode(FrameView::SimpleString(self@)),
    {
        out.push(SIMPLE_STRING_PREFIX);
        out.extend_from_slice(self.0.as_str().as_bytes());
        out.push(CR);
        out.push(LF);
    }

    /// Decodes a simple string at the head of `buf` without touching
    /// anything: the frame and the number of bytes it occupies.
    pub(crate) fn parse(buf: &[u8]) -> (r: Result<(SimpleString, usize), RespError>)
        ensures
            match r {
                Ok((s, used)) => Self::spec_decode(buf@) == Ok::<(Seq<char>, nat), RespError>(
                    (s@, used as nat),
                ) && used <= buf@.len(),
                Err(e) => Self::spec_decode(buf@) == Err::<(Seq<char>, nat), RespError>(e),
            },
    {
        if buf.len() == 0 {
            Err(RespError::NotComplete)
        } else if buf[0] != SIMPLE_STRING_PREFIX {
            Err(RespError::Malformed)
        } else {
            match read_line(buf) {
                Ok((text, used)) => Ok((SimpleString(text), used)),
                Err(e) => Err(e),
            }
        }
    }

    /// Extracts one simple string from the head of `buf`.
    ///
    /// On success the frame's bytes are removed from the buffer and what
    /// follows them stays. On failure the buffer is left as it was.
    pub fn decode(buf: &mut BytesMut) -> (r: Result<SimpleString, RespError>)
        ensures
            match Self::spec_decode(buffered(old(buf))) {
                Ok((text, used)) => r matches Ok(s) && s@ == text && buffered(final(buf))
                    == buffered(old(buf)).skip(used as int),
                Err(e) => r == Err::<SimpleString, RespError>(e) && buffered(final(buf))
                    == buffered(old(buf)),
            },
    {
        let view: &BytesMut = &*buf;
        let parsed = Self::parse(&**view);
        match parsed {
            Ok((s, used)) => {
                consume(buf, used);
                Ok(s)
            },
            Err(e) => Err(e),
        }
    }

    /// The number of bytes that the simple string at the head of `buf`
    /// occupies, once its line terminator is there.
    pub fn expect_length(buf: &[u8]) -> (r: Result<usize, RespError>)
        ensures
            match Self::spec_decode(buf@) {
                Ok((_, used)) => r == Ok::<usize, RespError>(used as usize) && used <= buf@.len(),
                Err(e) => r == Err::<usize, RespError>(e),
            },
    {
        match Self::parse(buf) {
            Ok((_, used)) => Ok(used),
            Err(e) => Err(e),
        }
    }
}

} // verus!
