//! What holds of the command parser for every command: each has a request
//! that stands for it, and for it alone.

use vstd::prelude::*;
use vstd::utf8::*;
use super::hmap::{HGET, HSET};
use super::map::{GET, SET};
use super::{parse_command, parse_request, text_arg, CommandErrorView, CommandView};
use crate::resp::wire::FrameView;

verus! {

/// The bulk string that carries a text.
pub open spec fn text_frame(text: Seq<char>) -> FrameView {
    FrameView::BulkString(encode_utf8(text))
}

/// The request that a client sends for a command: the verb and then the
/// arguments, keys and fields as bulk strings of their UTF-8 bytes.
pub open spec fn request_of(c: CommandView) -> Seq<FrameView> {
    match c {
        CommandView::Get { key } => seq![text_frame(GET@), text_frame(key)],
        CommandView::SetKey { key, val } => seq![text_frame(SET@), text_frame(key), val],
        CommandView::HGet { key, field } => seq![
            text_frame(HGET@),
            text_frame(key),
            text_frame(field),
        ],
        CommandView::HSet { key, field, val } => seq![
            text_frame(HSET@),
            text_frame(key),
            text_frame(field),
            val,
        ],
    }
}

/// A text that travels as a bulk string arrives as it was.
pub proof fn lemma_text_arg(text: Seq<char>)
    ensures
        text_arg(text_frame(text)) == Some(text),
{
    encode_utf8_valid_utf8(text);
    encode_utf8_decode_utf8(text);
}

/// No two verbs are the same bytes.
pub proof fn lemma_verbs_differ()
    ensures
        encode_utf8(GET@) != encode_utf8(SET@),
        encode_utf8(GET@) != encode_utf8(HGET@),
        encode_utf8(GET@) != encode_utf8(HSET@),
        encode_utf8(SET@) != encode_utf8(HGET@),
        encode_utf8(SET@) != encode_utf8(HSET@),
        encode_utf8(HGET@) != encode_utf8(HSET@),
{
    reveal_strlit("get");
    reveal_strlit("set");
    reveal_strlit("hget");
    reveal_strlit("hset");
    is_ascii_chars_encode_utf8(GET@);
    is_ascii_chars_encode_utf8(SET@);
    is_ascii_chars_encode_utf8(HGET@);
    is_ascii_chars_encode_utf8(HSET@);
    assert(encode_utf8(GET@)[0] != encode_utf8(SET@)[0]);
    assert(encode_utf8(HGET@)[1] != encode_utf8(HSET@)[1]);
}

/// Every command has a request, and that request stands for the command:
/// what the parser makes of it is the command itself.
pub proof fn lemma_request_roundtrip(c: CommandView)
    ensures
        parse_request(request_of(c)) == Ok::<CommandView, CommandErrorView>(c),
        parse_command(FrameView::Array(request_of(c))) == Ok::<CommandView, CommandErrorView>(c),
{
    lemma_verbs_differ();
    match c {
        CommandView::Get { key } => {
            lemma_text_arg(key);
        },
        CommandView::SetKey { key, val } => {
            lemma_text_arg(key);
        },
        CommandView::HGet { key, field } => {
            lemma_text_arg(key);
            lemma_text_arg(field);
        },
        CommandView::HSet { key, field, val } => {
            lemma_text_arg(key);
            lemma_text_arg(field);
        },
    }
}

} // verus!
