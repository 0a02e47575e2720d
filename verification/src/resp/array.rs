//! Arrays, `*<count>\r\n` followed by that many frames, and the null
//! array, `*-1\r\n`.

use vstd::prelude::*;
use bytes::BytesMut;
use super::buffer::{buffered, consume};
use super::frame::RespFrame;
use super::scan::{push_decimal, read_header};
use super::wire::{
    encode_from, nests_within, parse_frame, parse_header, spec_encode, wire_safe, FrameView,
    Header, ARRAY_PREFIX, CR, LF, MAX_DEPTH,
};
use super::RespError;

verus! {

/// An ordered sequence of frames of any kind.
#[derive(Debug, PartialEq, Eq)]
pub struct RespArray(pub Vec<RespFrame>);

/// The explicit null array.
#[derive(Debug, Clone, Copy, PartialEq, Eq, PartialOrd)]
pub struct RespNullArray;

impl View for RespArray {
    type V = Seq<FrameView>;

    open spec fn view(&self) -> Seq<FrameView> {
        Seq::new(
            self.0@.len(),
            |i: int|
                if 0 <= i < self.0@.len() {
                    self.0@[i]@
                } else {
                    FrameView::Null
                },
        )
    }
}

impl Clone for RespArray {
    fn clone(&self) -> (r: RespArray)
        ensures
            r@ == self@,
        decreases self,
    {
        let mut items: Vec<RespFrame> = Vec::new();
        let mut i: usize = 0;
        while i < self.0.len()
            invariant
                i <= self.0@.len(),
                items@.len() == i,
                forall|j: int| 0 <= j < i ==> items@[j]@ == self.0@[j]@,
            decreases self.0@.len() - i,
        {
            let item = self.0[i].clone();
            items.push(item);
            i += 1;
        }
        RespArray(items)
    }
}

impl RespArray {
    /// What a decode attempt for an array yields at the head of `b`: the
    /// elements and the number of bytes that the frame occupies. The null
    /// array is no array.
    pub open spec fn spec_decode(b: Seq<u8>) -> Result<(Seq<FrameView>, nat), RespError> {
        if b.len() == 0 {
            Err(RespError::NotComplete)
        } else if b[0] != ARRAY_PREFIX {
            Err(RespError::Malformed)
        } else {
            match parse_frame(b, MAX_DEPTH as nat) {
                Ok((FrameView::Array(items), used)) => Ok((items, used)),
                Ok(_) => Err(RespError::Malformed),
                Err(e) => Err(e),
            }
        }
    }

    /// The array of `items`, in their order.
    pub fn new(items: Vec<RespFrame>) -> (r: RespArray)
        ensures
            r.0 == items,
    {
        RespArray(items)
    }

    /// The number of elements.
    pub fn len(&self) -> (n: usize)
        ensures
            n == self@.len(),
    {
        self.0.len()
    }

    /// Whether no simple string or simple error among the elements, at any
    /// depth, holds a line terminator.
    pub fn is_wire_safe(&self) -> (safe: bool)
        ensures
            safe == wire_safe(FrameView::Array(self@)),
        decreases self,
    {
        let mut i: usize = 0;
        while i < self.0.len()
            invariant
                i <= self.0@.len(),
                self@.len() == self.0@.len(),
                forall|j: int| 0 <= j < i ==> wire_safe(#[trigger] self@[j]),
            decreases self.0@.len() - i,
        {
            if !self.0[i].is_wire_safe() {
                assert(FrameView::Array(self@)->Array_0[i as int] == self@[i as int]);
                return false;
            }
            i += 1;
        }
        true
    }

    /// Whether the array, which counts as one level itself, nests at most
    /// `depth` deep.
    pub fn nests_within(&self, depth: usize) -> (ok: bool)
        ensures
            ok == nests_within(FrameView::Array(self@), depth as nat),
        decreases self,
    {
        if depth == 0 {
            return false;
        }
        let mut i: usize = 0;
        while i < self.0.len()
            invariant
                depth > 0,
                i <= self.0@.len(),
                self@.len() == self.0@.len(),
                forall|j: int| 0 <= j < i ==> nests_within(#[trigger] self@[j], (depth - 1) as nat),
            decreases self.0@.len() - i,
        {
            if !self.0[i].nests_within(depth - 1) {
                assert(FrameView::Array(self@)->Array_0[i as int] == self@[i as int]);
                return false;
            }
            i += 1;
        }
        true
    }

    /// The frame's bytes: the prefix, the number of elements in decimal, a
    /// line terminator, and then each element's bytes in order.
    pub fn encode(self) -> (out: Vec<u8>)
        ensures
            out@ == spec_encode(FrameView::Array(self@)),
    {
        let mut out: Vec<u8> = Vec::new();
        self.encode_into(&mut out);
        out
    }

    pub(crate) fn encode_into(&self, out: &mut Vec<u8>)
        ensures
            final(out)@ == old(out)@ + spec_encode(FrameView::Array(self@)),
        decreases self,
    {
        let ghost views = self@;
        let ghost target = old(out)@ + spec_encode(FrameView::Array(views));
        out.push(ARRAY_PREFIX);
        push_decimal(out, self.0.len());
        out.push(CR);
        out.push(LF);
        let mut i: usize = 0;
        while i < self.0.len()
            invariant
                i <= self.0@.len(),
                views == self@,
                out@ + encode_from(views, i as int) == target,
            decreases self.0@.len() - i,
        {
            self.0[i].encode_into(out);
            i += 1;
        }
    }

    /// Decodes an array at the head of `buf` without touching anything: the
    /// frame and the number of bytes it occupies.
    pub(crate) fn parse(buf: &[u8]) -> (r: Result<(RespArray, usize), RespError>)
        ensures
            match r {
                Ok((a, used)) => Self::spec_decode(buf@) == Ok::<
                    (Seq<FrameView>, nat),
                    RespError,
                >((a@, used as nat)) && used <= buf@.len(),
                Err(e) => Self::spec_decode(buf@) == Err::<(Seq<FrameView>, nat), RespError>(e),
            },
    {
        if buf.len() == 0 {
            Err(RespError::NotComplete)
        } else if buf[0] != ARRAY_PREFIX {
            Err(RespError::Malformed)
        } else {
            match RespFrame::parse(buf) {
                Ok((RespFrame::Array(a), used)) => {
                    assert(a@ =~= RespFrame::Array(a)@->Array_0);
                    Ok((a, used))
                },
                Ok(_) => Err(RespError::Malformed),
                Err(e) => Err(e),
            }
        }
    }

    /// Extracts one array from the head of `buf`.
    ///
    /// On success the frame's bytes are removed from the buffer and what
    /// follows them stays. On failure the buffer is left as it was, also
    /// where only the last element is still arriving.
    pub fn decode(buf: &mut BytesMut) -> (r: Result<RespArray, RespError>)
        ensures
            match Self::spec_decode(buffered(old(buf))) {
                Ok((items, used)) => r matches Ok(a) && a@ == items && buffered(final(buf))
                    == buffered(old(buf)).skip(used as int),
                Err(e) => r == Err::<RespArray, RespError>(e) && buffered(final(buf))
                    == buffered(old(buf)),
            },
    {
        let view: &BytesMut = &*buf;
        let parsed = Self::parse(&**view);
        match parsed {
            Ok((a, used)) => {
                consume(buf, used);
                Ok(a)
            },
            Err(e) => Err(e),
        }
    }
}

impl RespNullArray {
    /// What a decode attempt for the null array yields at the head of `b`:
    /// the number of bytes that the frame occupies.
    pub open spec fn spec_decode(b: Seq<u8>) -> Result<nat, RespError> {
        if b.len() == 0 {
            Err(RespError::NotComplete)
        } else if b[0] != ARRAY_PREFIX {
            Err(RespError::Malformed)
        } else {
            match parse_header(b) {
                Header::Incomplete => Err(RespError::NotComplete),
                Header::Null { used } => Ok(used),
                _ => Err(RespError::Malformed),
            }
        }
    }

    /// The frame's bytes, `*-1\r\n`.
    pub fn encode(self) -> (out: Vec<u8>)
        ensures
            out@ == spec_encode(FrameView::NullArray),
    {
        let mut out: Vec<u8> = Vec::new();
        self.encode_into(&mut out);
        out
    }

    pub(crate) fn encode_into(&self, out: &mut Vec<u8>)
        ensures
            final(out)@ == old(out)@ + spec_encode(FrameView::NullArray),
    {
        out.push(ARRAY_PREFIX);
        out.push(45);
        out.push(49);
        out.push(CR);
        out.push(LF);
    }

    pub(crate) fn parse(buf: &[u8]) -> (r: Result<(RespNullArray, usize), RespError>)
        ensures
            match r {
                Ok((_, used)) => Self::spec_decode(buf@) == Ok::<nat, RespError>(used as nat)
                    && used <= buf@.len(),
                Err(e) => Self::spec_decode(buf@) == Err::<nat, RespError>(e),
            },
    {
        if buf.len() == 0 {
            Err(RespError::NotComplete)
        } else if buf[0] != ARRAY_PREFIX {
            Err(RespError::Malformed)
        } else {
            match read_header(buf) {
                Ok((None, used)) => Ok((RespNullArray, used)),
                Ok((Some(_), _)) => Err(RespError::Malformed),
                Err(e) => Err(e),
            }
        }
    }

    /// Extracts the null array from the head of `buf`.
    ///
    /// On success the frame's bytes are removed from the buffer and what
    /// follows them stays. On failure the buffer is left as it was.
    pub fn decode(buf: &mut BytesMut) -> (r: Result<RespNullArray, RespError>)
        ensures
            match Self::spec_decode(buffered(old(buf))) {
                Ok(used) => r is Ok && buffered(final(buf)) == buffered(old(buf)).skip(
                    used as int,
                ),
                Err(e) => r == Err::<RespNullArray, RespError>(e) && buffered(final(buf))
                    == buffered(old(buf)),
            },
    {
        let view: &BytesMut = &*buf;
        let parsed = Self::parse(&**view);
        match parsed {
            Ok((s, used)) => {
                consume(buf, used);
                Ok(s)
            },
            Err(e) => Err(e),
        }
    }
}

} // verus!
