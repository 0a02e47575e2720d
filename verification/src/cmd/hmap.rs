//! `hget` and `hset`: the key/field/value commands.

use vstd::prelude::*;
use vstd::std_specs::convert::TryFromSpecImpl;
use super::{
    check_command, extract_args, into_text, lookup_reply, resp_ok, text_arg, validate_command,
    CommandError, CommandErrorView, CommandView,
};
use crate::backend::Backend;
use crate::resp::array::RespArray;
use crate::resp::frame::RespFrame;
use crate::resp::wire::FrameView;

verus! {

/// The verb of [`HGet`].
pub const HGET: &'static str = "hget";

/// The verb of [`HSet`].
pub const HSET: &'static str = "hset";

/// Said where an argument of `hget` is no text.
pub const INVALID_KEY_OR_FIELD: &'static str = "Invalid key or field";

/// Said where the first or second argument of `hset` is no text.
pub const INVALID_KEY_FIELD_OR_VALUE: &'static str = "Invalid key, field or value";

/// `hget <key> <field>`: looks a field of a hash up.
#[derive(Debug, PartialEq, Eq)]
pub struct HGet {
    pub key: String,
    pub field: String,
}

/// `hset <key> <field> <value>`: puts a frame of any kind under a field of
/// a hash.
#[derive(Debug, PartialEq, Eq)]
pub struct HSet {
    pub key: String,
    pub field: String,
    pub val: RespFrame,
}

impl View for HGet {
    type V = CommandView;

    open spec fn view(&self) -> CommandView {
        CommandView::HGet { key: self.key@, field: self.field@ }
    }
}

impl View for HSet {
    type V = CommandView;

    open spec fn view(&self) -> CommandView {
        CommandView::HSet { key: self.key@, field: self.field@, val: self.val@ }
    }
}

/// The `hget` command that a request stands for: the verb `hget` and two
/// arguments, a key and a field that are text.
pub open spec fn parse_hget(items: Seq<FrameView>) -> Result<CommandView, CommandErrorView> {
    match check_command(items, seq![HGET], 2) {
        Err(e) => Err(e),
        Ok(()) => match (text_arg(items[1]), text_arg(items[2])) {
            (Some(key), Some(field)) => Ok(CommandView::HGet { key, field }),
            _ => Err(CommandErrorView::InvalidArgument(INVALID_KEY_OR_FIELD@)),
        },
    }
}

/// The `hset` command that a request stands for: the verb `hset` and
/// three arguments, a key and a field that are text and a value of any
/// kind.
pub open spec fn parse_hset(items: Seq<FrameView>) -> Result<CommandView, CommandErrorView> {
    match check_command(items, seq![HSET], 3) {
        Err(e) => Err(e),
        Ok(()) => match (text_arg(items[1]), text_arg(items[2])) {
            (Some(key), Some(field)) => Ok(CommandView::HSet { key, field, val: items[3] }),
            _ => Err(CommandErrorView::InvalidArgument(INVALID_KEY_FIELD_OR_VALUE@)),
        },
    }
}

impl TryFromSpecImpl<RespArray> for HGet {
    open spec fn obeys_try_from_spec() -> bool {
        false
    }

    open spec fn try_from_spec(value: RespArray) -> Result<HGet, CommandError> {
        arbitrary()
    }
}

impl TryFrom<RespArray> for HGet {
    type Error = CommandError;

    /// Makes an `hget` command from a request, or says why the request is
    /// none.
    fn try_from(value: RespArray) -> (r: Result<HGet, CommandError>)
        ensures
            match r {
                Ok(cmd) => parse_hget(value@) == Ok::<CommandView, CommandErrorView>(cmd@),
                Err(e) => parse_hget(value@) == Err::<CommandView, CommandErrorView>(e@),
            },
    {
        let names = [HGET];
        match validate_command(&value, names.as_slice(), 2) {
            Err(e) => Err(e),
            Ok(()) => {
                let mut args = extract_args(value, 1);
                let field = args.pop().unwrap();
                let key = args.pop().unwrap();
                match (into_text(key), into_text(field)) {
                    (Some(key), Some(field)) => Ok(HGet { key, field }),
                    _ => Err(CommandError::InvalidArgument(INVALID_KEY_OR_FIELD.to_owned())),
                }
            },
        }
    }
}

impl TryFromSpecImpl<RespArray> for HSet {
    open spec fn obeys_try_from_spec() -> bool {
        false
    }

    open spec fn try_from_spec(value: RespArray) -> Result<HSet, CommandError> {
        arbitrary()
    }
}

impl TryFrom<RespArray> for HSet {
    type Error = CommandError;

    /// Makes an `hset` command from a request, or says why the request is
    /// none.
    fn try_from(value: RespArray) -> (r: Result<HSet, CommandError>)
        ensures
            match r {
                Ok(cmd) => parse_hset(value@) == Ok::<CommandView, CommandErrorView>(cmd@),
                Err(e) => parse_hset(value@) == Err::<CommandView, CommandErrorView>(e@),
            },
    {
        let names = [HSET];
        match validate_command(&value, names.as_slice(), 3) {
            Err(e) => Err(e),
            Ok(()) => {
                let mut args = extract_args(value, 1);
                let val = args.pop().unwrap();
                let field = args.pop().unwrap();
                let key = args.pop().unwrap();
                match (into_text(key), into_text(field)) {
                    (Some(key), Some(field)) => Ok(HSet { key, field, val }),
                    _ => Err(
                        CommandError::InvalidArgument(INVALID_KEY_FIELD_OR_VALUE.to_owned()),
                    ),
                }
            },
        }
    }
}

impl HGet {
    /// Looks the field up in the hash: the frame found, or the null frame
    /// where the hash or the field is not there. Never an error.
    pub fn execute(self, backend: &Backend) -> RespFrame {
        lookup_reply(backend.hget(self.key.as_str(), self.field.as_str()))
    }
}

impl HSet {
    /// Puts the value under the field of the hash, which is created if it
    /// was not there, and answers `OK`.
    pub fn execute(self, backend: &Backend) -> (r: RespFrame)
        ensures
            r@ == FrameView::SimpleString("OK"@),
    {
        backend.hset(self.key, self.field, self.val);
        resp_ok()
    }
}

} // verus!
