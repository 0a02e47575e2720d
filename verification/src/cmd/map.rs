//! `get` and `set`: the plain key/value commands.

use vstd::prelude::*;
use vstd::std_specs::convert::TryFromSpecImpl;
use super::{
    check_command, extract_args, into_text, lookup_reply, resp_ok, text_arg, validate_command,
    CommandError, CommandErrorView, CommandView,
};
use crate::backend::Backend;
use crate::resp::array::RespArray;
use crate::resp::frame::RespFrame;
use crate::resp::wire::FrameView;

verus! {

/// The verb of [`Get`].
pub const GET: &'static str = "get";

/// The verb of [`SetKey`].
pub const SET: &'static str = "set";

/// Said where the argument of `get` is no text.
pub const INVALID_KEY: &'static str = "Invalid key";

/// Said where the first argument of `set` is no text.
pub const INVALID_KEY_OR_VALUE: &'static str = "Invalid key or value";

/// `get <key>`: looks a key up.
#[derive(Debug, PartialEq, Eq)]
pub struct Get {
    pub key: String,
}

/// `set <key> <value>`: puts a frame of any kind under a key.
#[derive(Debug, PartialEq, Eq)]
pub struct SetKey {
    pub key: String,
    pub val: RespFrame,
}

impl View for Get {
    type V = CommandView;

    open spec fn view(&self) -> CommandView {
        CommandView::Get { key: self.key@ }
    }
}

impl View for SetKey {
    type V = CommandView;

    open spec fn view(&self) -> CommandView {
        CommandView::SetKey { key: self.key@, val: self.val@ }
    }
}

/// The `get` command that a request stands for: the verb `get` and one
/// argument, a key that is text.
pub open spec fn parse_get(items: Seq<FrameView>) -> Result<CommandView, CommandErrorView> {
    match check_command(items, seq![GET], 1) {
        Err(e) => Err(e),
        Ok(()) => match text_arg(items[1]) {
            Some(key) => Ok(CommandView::Get { key }),
            None => Err(CommandErrorView::InvalidArgument(INVALID_KEY@)),
        },
    }
}

/// The `set` command that a request stands for: the verb `set` and two
/// arguments, a key that is text and a value of any kind.
pub open spec fn parse_set(items: Seq<FrameView>) -> Result<CommandView, CommandErrorView> {
    match check_command(items, seq![SET], 2) {
        Err(e) => Err(e),
        Ok(()) => match text_arg(items[1]) {
            Some(key) => Ok(CommandView::SetKey { key, val: items[2] }),
            None => Err(CommandErrorView::InvalidArgument(INVALID_KEY_OR_VALUE@)),
        },
    }
}

impl TryFromSpecImpl<RespArray> for Get {
    open spec fn obeys_try_from_spec() -> bool {
        false
    }

    open spec fn try_from_spec(value: RespArray) -> Result<Get, CommandError> {
        arbitrary()
    }
}

impl TryFrom<RespArray> for Get {
    type Error = CommandError;

    /// Makes a `get` command from a request, or says why the request is
    /// none.
    fn try_from(value: RespArray) -> (r: Result<Get, CommandError>)
        ensures
            match r {
                Ok(cmd) => parse_get(value@) == Ok::<CommandView, CommandErrorView>(cmd@),
                Err(e) => parse_get(value@) == Err::<CommandView, CommandErrorView>(e@),
            },
    {
        let names = [GET];
        match validate_command(&value, names.as_slice(), 1) {
            Err(e) => Err(e),
            Ok(()) => {
                let mut args = extract_args(value, 1);
                let key = args.pop().unwrap();
                match into_text(key) {
                    Some(key) => Ok(Get { key }),
                    None => Err(CommandError::InvalidArgument(INVALID_KEY.to_owned())),
                }
            },
        }
    }
}

impl TryFromSpecImpl<RespArray> for SetKey {
    open spec fn obeys_try_from_spec() -> bool {
        false
    }

    open spec fn try_from_spec(value: RespArray) -> Result<SetKey, CommandError> {
        arbitrary()
    }
}

impl TryFrom<RespArray> for SetKey {
    type Error = CommandError;

    /// Makes a `set` command from a request, or says why the request is
    /// none.
    fn try_from(value: RespArray) -> (r: Result<SetKey, CommandError>)
        ensures
            match r {
                Ok(cmd) => parse_set(value@) == Ok::<CommandView, CommandErrorView>(cmd@),
                Err(e) => parse_set(value@) == Err::<CommandView, CommandErrorView>(e@),
            },
    {
        let names = [SET];
        match validate_command(&value, names.as_slice(), 2) {
            Err(e) => Err(e),
            Ok(()) => {
                let mut args = extract_args(value, 1);
                let val = args.pop().unwrap();
                let key = args.pop().unwrap();
                match into_text(key) {
                    Some(key) => Ok(SetKey { key, val }),
                    None => Err(CommandError::InvalidArgument(INVALID_KEY_OR_VALUE.to_owned())),
                }
            },
        }
    }
}

impl Get {
    /// Looks the key up in the store: the frame found, or the null frame
    /// where there is none. Never an error.
    pub fn execute(self, backend: &Backend) -> RespFrame {
        lookup_reply(backend.get(self.key.as_str()))
    }
}

impl SetKey {
    /// Puts the value under the key, whatever was there, and answers `OK`.
    pub fn execute(self, backend: &Backend) -> (r: RespFrame)
        ensures
            r@ == FrameView::SimpleString("OK"@),
    {
        backend.set(self.key, self.val);
        resp_ok()
    }
}

} // verus!
