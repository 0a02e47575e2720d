//! The per-connection protocol: what a connection's worker does with each
//! thing that its transport reports.
//!
//! The worker itself, which waits for bytes and writes responses, lives
//! outside this library. It hands every event to [`stream_step`] and does
//! what the answer says, so that requests are answered one by one and in
//! order.

use vstd::prelude::*;
use vstd::utf8::*;
use bytes::BytesMut;
use crate::backend::Backend;
use crate::cmd::{
    message_of, parse_command, Command, CommandError, CommandErrorView, CommandView,
};
use crate::resp::buffer::buffered;
use crate::resp::frame::RespFrame;
use crate::resp::scan::is_line_safe;
use crate::resp::simple_error::SimpleError;
use crate::resp::wire::{no_crlf, parse_frame, spec_encode, wire_safe, FrameView, MAX_DEPTH};
use crate::resp::RespError;

verus! {

/// What an error response says where the text that it should carry holds a
/// line terminator and so cannot travel in a simple error.
pub const UNSENDABLE: &'static str = "error text holds a line break";

/// Frames a connection's byte stream: turns received bytes into request
/// frames and response frames into bytes to send.
#[derive(Debug)]
pub struct RespFrameCodec;

/// What the transport reports to a connection's worker.
#[derive(Debug)]
pub enum StreamEvent {
    /// A request frame has been decoded.
    Frame(RespFrame),
    /// Reading failed, or the bytes received are no frame.
    Failed,
    /// The peer has closed the stream cleanly.
    Closed,
}

/// What the worker does next.
#[derive(Debug)]
pub enum StreamAction {
    /// Send this response, then wait for the next event.
    Send(RespFrame),
    /// Give the connection up and report the failure.
    Abort,
    /// End the worker: the connection is done.
    Finish,
}

/// The error response to a request that is no command: a simple error
/// with the message of the failure, or with a fixed text where that
/// message could not travel on one line.
pub open spec fn error_reply_view(e: CommandErrorView) -> FrameView {
    let text = message_of(e);
    if no_crlf(encode_utf8(text)) {
        FrameView::Error(text)
    } else {
        FrameView::Error(UNSENDABLE@)
    }
}

/// What a response to a request has to be.
///
/// A request that is no command is answered with the error response that
/// says why, and a write with `OK`. What a lookup is answered with is up to
/// the store, which other connections write to at any moment.
pub open spec fn answers(request: FrameView, reply: FrameView) -> bool {
    match parse_command(request) {
        Err(e) => reply == error_reply_view(e),
        Ok(CommandView::SetKey { .. }) => reply == FrameView::SimpleString("OK"@),
        Ok(CommandView::HSet { .. }) => reply == FrameView::SimpleString("OK"@),
        Ok(CommandView::Get { .. }) => true,
        Ok(CommandView::HGet { .. }) => true,
    }
}

/// The fixed text can travel on one line.
proof fn lemma_unsendable_is_line_safe()
    ensures
        no_crlf(encode_utf8(UNSENDABLE@)),
{
    reveal_strlit("error text holds a line break");
    let text = UNSENDABLE@;
    assert(is_ascii_chars(text)) by {
        assert forall|i: int| 0 <= i < text.len() implies (text[i] as nat) < 128 by {}
    }
    is_ascii_chars_encode_utf8(text);
    let bytes = encode_utf8(text);
    assert forall|i: int| 0 <= i < bytes.len() implies bytes[i] != 13u8 by {}
}

/// Makes the error response to a request that is no command.
///
/// The response always decodes to itself: a verb or a reason that holds a
/// line terminator is not sent, so a request cannot smuggle a second
/// response into the stream.
pub fn error_reply(e: CommandError) -> (r: RespFrame)
    ensures
        r@ == error_reply_view(e@),
        wire_safe(r@),
{
    let text = e.message();
    if is_line_safe(text.as_str()) {
        RespFrame::Error(SimpleError::new(text))
    } else {
        proof {
            lemma_unsendable_is_line_safe();
        }
        RespFrame::Error(SimpleError::new(UNSENDABLE.to_owned()))
    }
}

/// Answers one request frame: makes the command that it stands for and
/// carries it out against the store, or, where the frame is no command,
/// answers with an error response. The connection goes on either way.
pub fn request_handler(frame: RespFrame, backend: &Backend) -> (r: RespFrame)
    ensures
        answers(frame@, r@),
        parse_command(frame@) is Err ==> wire_safe(r@),
{
    match Command::try_from(frame) {
        Ok(cmd) => cmd.execute(backend),
        Err(e) => error_reply(e),
    }
}

/// Decides what a connection's worker does with an event.
///
/// A request is answered with exactly one response; a failure of the
/// transport or of the protocol ends the connection with an error; a clean
/// end of the stream ends it without one.
pub fn stream_step(event: StreamEvent, backend: &Backend) -> (action: StreamAction)
    ensures
        match event {
            StreamEvent::Frame(frame) => action matches StreamAction::Send(reply) && answers(
                frame@,
                reply@,
            ),
            StreamEvent::Failed => action is Abort,
            StreamEvent::Closed => action is Finish,
        },
{
    match event {
        StreamEvent::Frame(frame) => StreamAction::Send(request_handler(frame, backend)),
        StreamEvent::Failed => StreamAction::Abort,
        StreamEvent::Closed => StreamAction::Finish,
    }
}

impl RespFrameCodec {
    /// Appends the bytes of a response frame to what is to be sent.
    pub fn encode(&mut self, item: RespFrame, dst: &mut Vec<u8>)
        ensures
            final(dst)@ == old(dst)@ + spec_encode(item@),
    {
        item.encode_into(dst);
    }

    /// Takes the last request frames from the received bytes once the peer
    /// has closed the stream.
    ///
    /// `Ok(None)` says that the stream ended cleanly, between two frames.
    /// A stream that ends inside a frame is an error, as are bytes that are
    /// no frame.
    pub fn decode_eof(&mut self, src: &mut BytesMut) -> (r: Result<Option<RespFrame>, RespError>)
        ensures
            match parse_frame(buffered(old(src)), MAX_DEPTH as nat) {
                Ok((frame, used)) => r matches Ok(Some(f)) && f@ == frame && buffered(final(src))
                    == buffered(old(src)).skip(used as int),
                Err(e) => buffered(final(src)) == buffered(old(src)) && if buffered(old(src)).len()
                    == 0 {
                    r matches Ok(None)
                } else {
                    r == Err::<Option<RespFrame>, RespError>(e)
                },
            },
    {
        match RespFrame::decode(src) {
            Ok(frame) => Ok(Some(frame)),
            Err(e) => {
                let held: &BytesMut = &*src;
                if (&**held).len() == 0 {
                    Ok(None)
                } else {
                    Err(e)
                }
            },
        }
    }

    /// Takes the next request frame from the received bytes, if it has
    /// arrived in full.
    ///
    /// `Ok(None)` asks for more input and leaves the buffer as it was;
    /// `Err` says that the bytes are no frame, which ends the connection.
    pub fn decode(&mut self, src: &mut BytesMut) -> (r: Result<Option<RespFrame>, RespError>)
        ensures
            match parse_frame(buffered(old(src)), MAX_DEPTH as nat) {
                Ok((frame, used)) => r matches Ok(Some(f)) && f@ == frame && buffered(final(src))
                    == buffered(old(src)).skip(used as int),
                Err(RespError::NotComplete) => r matches Ok(None) && buffered(final(src))
                    == buffered(old(src)),
                Err(RespError::Malformed) => r matches Err(RespError::Malformed) && buffered(
                    final(src),
                ) == buffered(old(src)),
            },
    {
        match RespFrame::decode(src) {
            Ok(frame) => Ok(Some(frame)),
            Err(RespError::NotComplete) => Ok(None),
            Err(e) => Err(e),
        }
    }
}

} // verus!
