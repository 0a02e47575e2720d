//! The frame: one self-delimited protocol unit, of any kind.

use vstd::prelude::*;
use vstd::slice::slice_subrange;
use vstd::std_specs::convert::FromSpecImpl;
use bytes::BytesMut;
use super::array::{RespArray, RespNullArray};
use super::buffer::{buffered, consume};
use super::bulk_string::{BulkString, RespNullBulkString};
use super::laws::lemma_items_span_fits;
use super::null::RespNull;
use super::scan::{find_crlf, read_bulk, read_header, read_line, read_null};
use super::simple_error::SimpleError;
use super::simple_string::SimpleString;
use super::wire::{
    add_span, frame_span, items_span, nests_within, parse_frame, parse_header, parse_items,
    spec_encode, wire_safe, FrameView, Header, ARRAY_PREFIX, BULK_STRING_PREFIX,
    MAX_DEPTH, NULL_PREFIX, SIMPLE_ERROR_PREFIX, SIMPLE_STRING_PREFIX,
};
use super::RespError;

verus! {

/// One protocol unit: a request element or a response element.
#[derive(Debug, PartialEq, Eq)]
pub enum RespFrame {
    SimpleString(SimpleString),
    Error(SimpleError),
    BulkString(BulkString),
    NullBulkString(RespNullBulkString),
    Array(RespArray),
    NullArray(RespNullArray),
    Null(RespNull),
}

impl View for RespFrame {
    type V = FrameView;

    open spec fn view(&self) -> FrameView
        decreases self,
    {
        match self {
            RespFrame::SimpleString(s) => FrameView::SimpleString(s.0@),
            RespFrame::Error(e) => FrameView::Error(e.0@),
            RespFrame::BulkString(b) => FrameView::BulkString(b.0@),
            RespFrame::NullBulkString(_) => FrameView::NullBulkString,
            RespFrame::Array(a) => FrameView::Array(
                Seq::new(
                    a.0@.len(),
                    |i: int|
                        if 0 <= i < a.0@.len() {
                            a.0@[i].view()
                        } else {
                            FrameView::Null
                        },
                ),
            ),
            RespFrame::NullArray(_) => FrameView::NullArray,
            RespFrame::Null(_) => FrameView::Null,
        }
    }
}

/// What a run of decoded items amounts to once `done` items, `used` bytes
/// long, stand before it.
spec fn after_items(
    done: Seq<FrameView>,
    used: nat,
    rest: Result<(Seq<FrameView>, nat), RespError>,
) -> Result<(Seq<FrameView>, nat), RespError> {
    match rest {
        Ok((items, len)) => Ok((done + items, used + len)),
        Err(e) => Err(e),
    }
}

impl Clone for RespFrame {
    fn clone(&self) -> (r: RespFrame)
        ensures
            r@ == self@,
        decreases self,
    {
        match self {
            RespFrame::SimpleString(s) => RespFrame::SimpleString(s.clone()),
            RespFrame::Error(e) => RespFrame::Error(e.clone()),
            RespFrame::BulkString(b) => RespFrame::BulkString(b.clone()),
            RespFrame::NullBulkString(_) => RespFrame::NullBulkString(RespNullBulkString),
            RespFrame::Array(a) => {
                let items = a.clone();
                assert(RespFrame::Array(items)@->Array_0 =~= items@);
                assert(self@->Array_0 =~= a@);
                RespFrame::Array(items)
            },
            RespFrame::NullArray(_) => RespFrame::NullArray(RespNullArray),
            RespFrame::Null(_) => RespFrame::Null(RespNull),
        }
    }
}

impl FromSpecImpl<SimpleString> for RespFrame {
    open spec fn obeys_from_spec() -> bool {
        true
    }

    open spec fn from_spec(v: SimpleString) -> RespFrame {
        RespFrame::SimpleString(v)
    }
}

impl From<SimpleString> for RespFrame {
    fn from(v: SimpleString) -> (r: RespFrame) {
        RespFrame::SimpleString(v)
    }
}

impl FromSpecImpl<SimpleError> for RespFrame {
    open spec fn obeys_from_spec() -> bool {
        true
    }

    open spec fn from_spec(v: SimpleError) -> RespFrame {
        RespFrame::Error(v)
    }
}

impl From<SimpleError> for RespFrame {
    fn from(v: SimpleError) -> (r: RespFrame) {
        RespFrame::Error(v)
    }
}

impl FromSpecImpl<BulkString> for RespFrame {
    open spec fn obeys_from_spec() -> bool {
        true
    }

    open spec fn from_spec(v: BulkString) -> RespFrame {
        RespFrame::BulkString(v)
    }
}

impl From<BulkString> for RespFrame {
    fn from(v: BulkString) -> (r: RespFrame) {
        RespFrame::BulkString(v)
    }
}

impl FromSpecImpl<RespNullBulkString> for RespFrame {
    open spec fn obeys_from_spec() -> bool {
        true
    }

    open spec fn from_spec(v: RespNullBulkString) -> RespFrame {
        RespFrame::NullBulkString(v)
    }
}

impl From<RespNullBulkString> for RespFrame {
    fn from(v: RespNullBulkString) -> (r: RespFrame) {
        RespFrame::NullBulkString(v)
    }
}

impl FromSpecImpl<RespArray> for RespFrame {
    open spec fn obeys_from_spec() -> bool {
        true
    }

    open spec fn from_spec(v: RespArray) -> RespFrame {
        RespFrame::Array(v)
    }
}

impl From<RespArray> for RespFrame {
    fn from(v: RespArray) -> (r: RespFrame) {
        RespFrame::Array(v)
    }
}

impl FromSpecImpl<RespNullArray> for RespFrame {
    open spec fn obeys_from_spec() -> bool {
        true
    }

    open spec fn from_spec(v: RespNullArray) -> RespFrame {
        RespFrame::NullArray(v)
    }
}

impl From<RespNullArray> for RespFrame {
    fn from(v: RespNullArray) -> (r: RespFrame) {
        RespFrame::NullArray(v)
    }
}

impl FromSpecImpl<RespNull> for RespFrame {
    open spec fn obeys_from_spec() -> bool {
        true
    }

    open spec fn from_spec(v: RespNull) -> RespFrame {
        RespFrame::Null(v)
    }
}

impl From<RespNull> for RespFrame {
    fn from(v: RespNull) -> (r: RespFrame) {
        RespFrame::Null(v)
    }
}

impl RespFrame {
    /// The frame's canonical bytes.
    pub fn encode(self) -> (out: Vec<u8>)
        ensures
            out@ == spec_encode(self@),
    {
        let mut out: Vec<u8> = Vec::new();
        self.encode_into(&mut out);
        out
    }

    /// Appends the frame's canonical bytes to `out`.
    pub fn encode_into(&self, out: &mut Vec<u8>)
        ensures
            final(out)@ == old(out)@ + spec_encode(self@),
        decreases self,
    {
        match self {
            RespFrame::SimpleString(s) => s.encode_into(out),
            RespFrame::Error(e) => e.encode_into(out),
            RespFrame::BulkString(b) => b.encode_into(out),
            RespFrame::NullBulkString(n) => n.encode_into(out),
            RespFrame::Array(a) => {
                a.encode_into(out);
                assert(a@ =~= self@->Array_0);
            },
            RespFrame::NullArray(n) => n.encode_into(out),
            RespFrame::Null(n) => n.encode_into(out),
        }
    }

    /// Whether the frame decodes to itself as far as its texts go: whether
    /// no simple string or simple error in it holds a line terminator.
    pub fn is_wire_safe(&self) -> (safe: bool)
        ensures
            safe == wire_safe(self@),
        decreases self,
    {
        match self {
            RespFrame::SimpleString(s) => s.is_wire_safe(),
            RespFrame::Error(e) => e.is_wire_safe(),
            RespFrame::Array(a) => {
                assert(self@->Array_0 =~= a@);
                a.is_wire_safe()
            },
            _ => true,
        }
    }

    /// Whether arrays in the frame nest at most `depth` deep. The decoder
    /// follows them [`MAX_DEPTH`] deep.
    pub fn nests_within(&self, depth: usize) -> (ok: bool)
        ensures
            ok == nests_within(self@, depth as nat),
        decreases self,
    {
        match self {
            RespFrame::Array(a) => {
                assert(self@->Array_0 =~= a@);
                a.nests_within(depth)
            },
            _ => true,
        }
    }

    /// Decodes one frame at the head of `buf` without touching anything:
    /// the frame and the exact number of bytes it occupies.
    ///
    /// Bytes after the frame are not looked at, so a buffer that holds
    /// several frames, or a frame and the beginning of the next, yields the
    /// first. `NotComplete` says that the frame at the head has not arrived
    /// in full; `Malformed`, that no further input can complete it.
    pub fn parse(buf: &[u8]) -> (r: Result<(RespFrame, usize), RespError>)
        ensures
            match r {
                Ok((frame, used)) => parse_frame(buf@, MAX_DEPTH as nat) == Ok::<
                    (FrameView, nat),
                    RespError,
                >((frame@, used as nat)) && used <= buf@.len(),
                Err(e) => parse_frame(buf@, MAX_DEPTH as nat) == Err::<(FrameView, nat), RespError>(
                    e,
                ),
            },
    {
        Self::parse_within(buf, MAX_DEPTH)
    }

    /// Decodes one frame at the head of `buf` in which arrays may nest
    /// `depth` deep.
    pub fn parse_within(buf: &[u8], depth: usize) -> (r: Result<(RespFrame, usize), RespError>)
        ensures
            match r {
                Ok((frame, used)) => parse_frame(buf@, depth as nat) == Ok::<
                    (FrameView, nat),
                    RespError,
                >((frame@, used as nat)) && used <= buf@.len(),
                Err(e) => parse_frame(buf@, depth as nat) == Err::<(FrameView, nat), RespError>(e),
            },
        decreases depth,
    {
        if buf.len() == 0 {
            return Err(RespError::NotComplete);
        }
        let prefix = buf[0];
        if prefix == SIMPLE_STRING_PREFIX {
            match read_line(buf) {
                Ok((text, used)) => Ok((RespFrame::SimpleString(SimpleString(text)), used)),
                Err(e) => Err(e),
            }
        } else if prefix == SIMPLE_ERROR_PREFIX {
            match read_line(buf) {
                Ok((text, used)) => Ok((RespFrame::Error(SimpleError(text)), used)),
                Err(e) => Err(e),
            }
        } else if prefix == BULK_STRING_PREFIX {
            match read_bulk(buf) {
                Ok((Some(data), used)) => Ok((RespFrame::BulkString(BulkString(data)), used)),
                Ok((None, used)) => Ok((RespFrame::NullBulkString(RespNullBulkString), used)),
                Err(e) => Err(e),
            }
        } else if prefix == NULL_PREFIX {
            match read_null(buf) {
                Ok(used) => Ok((RespFrame::Null(RespNull), used)),
                Err(e) => Err(e),
            }
        } else if prefix == ARRAY_PREFIX {
            match read_header(buf) {
                Err(e) => Err(e),
                Ok((None, used)) => Ok((RespFrame::NullArray(RespNullArray), used)),
                Ok((Some(count), used)) => {
                    if depth == 0 {
                        return Err(RespError::Malformed);
                    }
                    let ghost whole = parse_items(
                        buf@.skip(used as int),
                        count as nat,
                        (depth - 1) as nat,
                    );
                    let ghost mut views: Seq<FrameView> = Seq::empty();
                    let mut items: Vec<RespFrame> = Vec::new();
                    let mut pos = used;
                    let mut done: usize = 0;
                    while done < count
                        invariant
                            depth > 0,
                            buf@.len() > 0,
                            buf@[0] == ARRAY_PREFIX,
                            parse_header(buf@) == (Header::Count {
                                count: count as nat,
                                used: used as nat,
                            }),
                            used <= pos <= buf@.len(),
                            done <= count,
                            items@.len() == done,
                            views.len() == done,
                            forall|j: int| 0 <= j < done ==> items@[j]@ == views[j],
                            whole == parse_items(
                                buf@.skip(used as int),
                                count as nat,
                                (depth - 1) as nat,
                            ),
                            whole == after_items(
                                views,
                                (pos - used) as nat,
                                parse_items(
                                    buf@.skip(pos as int),
                                    (count - done) as nat,
                                    (depth - 1) as nat,
                                ),
                            ),
                        decreases count - done,
                    {
                        let rest = slice_subrange(buf, pos, buf.len());
                        match Self::parse_within(rest, depth - 1) {
                            Err(e) => {
                                return Err(e);
                            },
                            Ok((item, len)) => {
                                proof {
                                    let tail = parse_items(
                                        rest@.skip(len as int),
                                        (count - done - 1) as nat,
                                        (depth - 1) as nat,
                                    );
                                    assert(rest@.skip(len as int) =~= buf@.skip(pos + len));
                                    if tail is Ok {
                                        assert(views + (seq![item@] + tail->Ok_0.0) =~= views.push(
                                            item@,
                                        ) + tail->Ok_0.0);
                                    }
                                    views = views.push(item@);
                                }
                                items.push(item);
                                pos = pos + len;
                                done = done + 1;
                            },
                        }
                    }
                    let frame = RespFrame::Array(RespArray(items));
                    proof {
                        assert(frame@->Array_0 =~= views);
                    }
                    Ok((frame, pos))
                },
            }
        } else {
            Err(RespError::Malformed)
        }
    }

    /// The number of bytes that the frame at the head of `buf` will occupy
    /// once it has arrived in full, as soon as `buf` tells.
    ///
    /// A line tells once its terminator is there; a bulk string, once its
    /// header is there; an array, once each element tells and all but the
    /// last have arrived in full. Before that the answer is `NotComplete`.
    /// A length that no buffer could hold is `Malformed`.
    pub fn expect_length(buf: &[u8]) -> (r: Result<usize, RespError>)
        ensures
            match r {
                Ok(len) => frame_span(buf@, MAX_DEPTH as nat) == Ok::<nat, RespError>(len as nat),
                Err(e) => frame_span(buf@, MAX_DEPTH as nat) == Err::<nat, RespError>(e),
            },
    {
        Self::expect_length_within(buf, MAX_DEPTH)
    }

    /// The number of bytes that the frame at the head of `buf` will occupy,
    /// where arrays may nest `depth` deep.
    pub fn expect_length_within(buf: &[u8], depth: usize) -> (r: Result<usize, RespError>)
        ensures
            match r {
                Ok(len) => frame_span(buf@, depth as nat) == Ok::<nat, RespError>(len as nat),
                Err(e) => frame_span(buf@, depth as nat) == Err::<nat, RespError>(e),
            },
        decreases depth,
    {
        let len = buf.len();
        if len == 0 {
            return Err(RespError::NotComplete);
        }
        let prefix = buf[0];
        if prefix == SIMPLE_STRING_PREFIX || prefix == SIMPLE_ERROR_PREFIX {
            match find_crlf(buf, 1) {
                None => Err(RespError::NotComplete),
                Some(end) => Ok(end + 2),
            }
        } else if prefix == BULK_STRING_PREFIX {
            match read_header(buf) {
                Err(e) => Err(e),
                Ok((None, used)) => Ok(used),
                Ok((Some(count), used)) => {
                    if count > usize::MAX - 2 || used > usize::MAX - 2 - count {
                        Err(RespError::Malformed)
                    } else {
                        Ok(used + count + 2)
                    }
                },
            }
        } else if prefix == NULL_PREFIX {
            read_null(buf)
        } else if prefix == ARRAY_PREFIX {
            match read_header(buf) {
                Err(e) => Err(e),
                Ok((None, used)) => Ok(used),
                Ok((Some(count), used)) => {
                    if depth == 0 {
                        return Err(RespError::Malformed);
                    }
                    let ghost whole = items_span(
                        buf@.skip(used as int),
                        count as nat,
                        (depth - 1) as nat,
                    );
                    let mut pos = used;
                    let mut done: usize = 0;
                    proof {
                        lemma_items_span_fits(
                            buf@.skip(used as int),
                            count as nat,
                            (depth - 1) as nat,
                        );
                    }
                    while done < count
                        invariant
                            depth > 0,
                            len == buf@.len(),
                            buf@[0] == ARRAY_PREFIX,
                            parse_header(buf@) == (Header::Count {
                                count: count as nat,
                                used: used as nat,
                            }),
                            used <= pos <= len,
                            done <= count,
                            whole == items_span(
                                buf@.skip(used as int),
                                count as nat,
                                (depth - 1) as nat,
                            ),
                            whole == add_span(
                                (pos - used) as nat,
                                items_span(
                                    buf@.skip(pos as int),
                                    (count - done) as nat,
                                    (depth - 1) as nat,
                                ),
                            ),
                        decreases count - done,
                    {
                        let rest = slice_subrange(buf, pos, len);
                        match Self::expect_length_within(rest, depth - 1) {
                            Err(e) => {
                                return Err(e);
                            },
                            Ok(first) => {
                                if count - done == 1 {
                                    if first > usize::MAX - pos {
                                        return Err(RespError::Malformed);
                                    } else {
                                        return Ok(pos + first);
                                    }
                                }
                                if first > len - pos {
                                    return Err(RespError::NotComplete);
                                }
                                assert(rest@.skip(first as int) =~= buf@.skip(pos + first));
                                pos = pos + first;
                                done = done + 1;
                            },
                        }
                    }
                    Ok(pos)
                },
            }
        } else {
            Err(RespError::Malformed)
        }
    }

    /// Extracts exactly one frame from the head of `buf`, which may hold
    /// none, one, several, or one that is still arriving.
    ///
    /// On success the frame's bytes are removed from the buffer and what
    /// follows them stays, ready for the next call. On failure the buffer is
    /// left as it was: nothing of an incomplete array is consumed.
    pub fn decode(buf: &mut BytesMut) -> (r: Result<RespFrame, RespError>)
        ensures
            match parse_frame(buffered(old(buf)), MAX_DEPTH as nat) {
                Ok((frame, used)) => r matches Ok(f) && f@ == frame && buffered(final(buf))
                    == buffered(old(buf)).skip(used as int),
                Err(e) => r == Err::<RespFrame, RespError>(e) && buffered(final(buf))
                    == buffered(old(buf)),
            },
    {
        let view: &BytesMut = &*buf;
        let parsed = Self::parse(&**view);
        match parsed {
            Ok((frame, used)) => {
                consume(buf, used);
                Ok(frame)
            },
            Err(e) => Err(e),
        }
    }
}

} // verus!
