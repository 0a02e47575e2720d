//! The null frame, `_\r\n`.

use vstd::prelude::*;
use bytes::BytesMut;
use super::buffer::{buffered, consume};
use super::scan::read_null;
use super::wire::{parse_null, spec_encode, FrameView, CR, LF, NULL_PREFIX};
use super::RespError;

verus! {

/// The explicit null: what a lookup answers when there is nothing to find.
#[derive(Debug, Clone, Copy, PartialEq, Eq, PartialOrd)]
pub struct RespNull;

impl RespNull {
    /// What a decode attempt for the null frame yields at the head of `b`:
    /// the number of bytes that the frame occupies.
    pub open spec fn spec_decode(b: Seq<u8>) -> Result<nat, RespError> {
        if b.len() == 0 {
            Err(RespError::NotComplete)
        } else if b[0] != NULL_PREFIX {
            Err(RespError::Malformed)
        } else {
            parse_null(b)
        }
    }

    /// The frame's bytes, `_\r\n`.
    pub fn encode(self) -> (out: Vec<u8>)
        ensures
            out@ == spec_encode(FrameView::Null),
    {
        let mut out: Vec<u8> = Vec::new();
        self.encode_into(&mut out);
        out
    }

    pub(crate) fn encode_into(&self, out: &mut Vec<u8>)
        ensures
            final(out)@ == old(out)@ + spec_encode(FrameView::Null),
    {
        out.push(NULL_PREFIX);
        out.push(CR);
        out.push(LF);
    }

    pub(crate) fn parse(buf: &[u8]) -> (r: Result<(RespNull, usize), RespError>)
        ensures
            match r {
                Ok((_, used)) => Self::spec_decode(buf@) == Ok::<nat, RespError>(used as nat)
                    && used <= buf@.len(),
                Err(e) => Self::spec_decode(buf@) == Err::<nat, RespError>(e),
            },
    {
        if buf.len() == 0 {
            Err(RespError::NotComplete)
        } else if buf[0] != NULL_PREFIX {
            Err(RespError::Malformed)
        } else {
            match read_null(buf) {
                Ok(used) => Ok((RespNull, used)),
                Err(e) => Err(e),
            }
        }
    }

    /// Extracts the null frame from the head of `buf`.
    ///
    /// On success the frame's bytes are removed from the buffer and what
    /// follows them stays. On failure the buffer is left as it was.
    pub fn decode(buf: &mut BytesMut) -> (r: Result<RespNull, RespError>)
        ensures
            match Self::spec_decode(buffered(old(buf))) {
                Ok(used) => r is Ok && buffered(final(buf)) == buffered(old(buf)).skip(
                    used as int,
                ),
                Err(e) => r == Err::<RespNull, RespError>(e) && buffered(final(buf)) == buffered(
                    old(buf),
                ),
            },
    {
        let view: &BytesMut = &*buf;
        let parsed = Self::parse(&**view);
        match parsed {
            Ok((s, used)) => {
                consume(buf, used);
                Ok(s)
            },
            Err(e) => Err(e),
        }
    }
}

} // verus!
