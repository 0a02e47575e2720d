//! Commands: the typed operations that request frames stand for.
//!
//! A command is only ever made from an array frame, by a conversion that
//! checks the verb, the number of arguments and the kind of each argument.

use vstd::prelude::*;
use vstd::std_specs::convert::TryFromSpecImpl;
use vstd::string::StringExecFns;
use vstd::utf8::*;
use crate::backend::Backend;
use crate::resp::array::RespArray;
use crate::resp::frame::RespFrame;
use crate::resp::null::RespNull;
use crate::resp::simple_string::SimpleString;
use crate::resp::text::lossy_text;
use crate::resp::wire::{text_of, FrameView};
use self::hmap::{parse_hget, parse_hset, HGet, HSet, HGET, HSET};
use self::map::{parse_get, parse_set, Get, SetKey, GET, SET};

pub mod hmap;
pub mod laws;
pub mod map;

verus! {

/// Said where the number of elements is not what the command takes.
pub const WRONG_ARITY: &'static str = "wrong number of arguments";

/// Said where a leading element is not the verb that the command expects.
pub const WRONG_VERB: &'static str = "unexpected command verb";

/// Said where a request is not an array frame.
pub const NOT_AN_ARRAY: &'static str = "command must be an array";

/// Said where the first element of a request is not a bulk string.
pub const NO_VERB: &'static str = "command must start with a bulk string";

/// What the message of an unknown command says before the verb.
pub const UNKNOWN_COMMAND: &'static str = "unknown command: ";

/// Why a request frame is no command.
#[derive(Debug, PartialEq, Eq)]
pub enum CommandError {
    /// The request has the wrong shape, arity or argument types. The text
    /// says which check failed.
    InvalidArgument(String),
    /// No command has this verb. The text is the verb.
    UnknownCommand(String),
}

/// The abstract value of a [`CommandError`].
pub enum CommandErrorView {
    InvalidArgument(Seq<char>),
    UnknownCommand(Seq<char>),
}

impl View for CommandError {
    type V = CommandErrorView;

    open spec fn view(&self) -> CommandErrorView {
        match self {
            CommandError::InvalidArgument(reason) => CommandErrorView::InvalidArgument(reason@),
            CommandError::UnknownCommand(verb) => CommandErrorView::UnknownCommand(verb@),
        }
    }
}

/// A request that has been checked: one of the operations that the server
/// carries out.
#[derive(Debug, PartialEq, Eq)]
pub enum Command {
    Get(Get),
    SetKey(SetKey),
    HGet(HGet),
    HSet(HSet),
}

/// Which constructor a verb selects.
enum Verb {
    Get,
    SetKey,
    HGet,
    HSet,
}

/// What an error says to a reader: the reason of an invalid argument as it
/// is, and the verb of an unknown command after a few words of
/// introduction.
pub open spec fn message_of(e: CommandErrorView) -> Seq<char> {
    match e {
        CommandErrorView::InvalidArgument(reason) => reason,
        CommandErrorView::UnknownCommand(verb) => UNKNOWN_COMMAND@ + verb,
    }
}

impl CommandError {
    /// The error as a text for people.
    pub fn message(&self) -> (text: String)
        ensures
            text@ == message_of(self@),
    {
        match self {
            CommandError::InvalidArgument(reason) => reason.clone(),
            CommandError::UnknownCommand(verb) => {
                let mut text = UNKNOWN_COMMAND.to_owned();
                text.append(verb.as_str());
                text
            },
        }
    }
}

/// The abstract value of a [`Command`].
pub enum CommandView {
    Get { key: Seq<char> },
    SetKey { key: Seq<char>, val: FrameView },
    HGet { key: Seq<char>, field: Seq<char> },
    HSet { key: Seq<char>, field: Seq<char>, val: FrameView },
}

/// The request has as many elements as its verb tokens and arguments
/// together.
pub open spec fn has_arity(items: Seq<FrameView>, verbs: nat, n_args: nat) -> bool {
    items.len() == verbs + n_args
}

/// The leading elements of the request are bulk strings that hold exactly
/// the verb tokens, byte for byte.
pub open spec fn has_verbs(items: Seq<FrameView>, names: Seq<&str>) -> bool {
    forall|i: int|
        0 <= i < names.len() ==> i < items.len() && #[trigger] items[i] == FrameView::BulkString(
            encode_utf8(names[i]@),
        )
}

/// The check that every command constructor starts with: the arity first,
/// then the verb.
pub open spec fn check_command(items: Seq<FrameView>, names: Seq<&str>, n_args: nat) -> Result<
    (),
    CommandErrorView,
> {
    if !has_arity(items, names.len(), n_args) {
        Err(CommandErrorView::InvalidArgument(WRONG_ARITY@))
    } else if !has_verbs(items, names) {
        Err(CommandErrorView::InvalidArgument(WRONG_VERB@))
    } else {
        Ok(())
    }
}

/// The text that an argument stands for, where it is a bulk string that
/// holds valid UTF-8.
pub open spec fn text_arg(v: FrameView) -> Option<Seq<char>> {
    match v {
        FrameView::BulkString(bytes) => if valid_utf8(bytes) {
            Some(decode_utf8(bytes))
        } else {
            None
        },
        _ => None,
    }
}

impl View for Command {
    type V = CommandView;

    open spec fn view(&self) -> CommandView {
        match self {
            Command::Get(c) => c@,
            Command::SetKey(c) => c@,
            Command::HGet(c) => c@,
            Command::HSet(c) => c@,
        }
    }
}

/// The command that the elements of a request stand for.
///
/// The first element has to be a bulk string, the verb, which selects the
/// constructor; a verb that selects none is an unknown command.
pub open spec fn parse_request(items: Seq<FrameView>) -> Result<CommandView, CommandErrorView> {
    if items.len() == 0 {
        Err(CommandErrorView::InvalidArgument(NO_VERB@))
    } else {
        match items[0] {
            FrameView::BulkString(verb) => {
                if verb == encode_utf8(GET@) {
                    parse_get(items)
                } else if verb == encode_utf8(SET@) {
                    parse_set(items)
                } else if verb == encode_utf8(HGET@) {
                    parse_hget(items)
                } else if verb == encode_utf8(HSET@) {
                    parse_hset(items)
                } else {
                    Err(CommandErrorView::UnknownCommand(text_of(verb)))
                }
            },
            _ => Err(CommandErrorView::InvalidArgument(NO_VERB@)),
        }
    }
}

/// The command that a request frame stands for. Only an array is a
/// request.
pub open spec fn parse_command(v: FrameView) -> Result<CommandView, CommandErrorView> {
    match v {
        FrameView::Array(items) => parse_request(items),
        _ => Err(CommandErrorView::InvalidArgument(NOT_AN_ARRAY@)),
    }
}

/// The canonical success status frame, `+OK\r\n`.
pub fn resp_ok() -> (r: RespFrame)
    ensures
        r@ == FrameView::SimpleString("OK"@),
{
    RespFrame::SimpleString(SimpleString::new("OK".to_owned()))
}

/// The reply to a lookup: the frame that was found, or the null frame.
pub fn lookup_reply(found: Option<RespFrame>) -> (r: RespFrame)
    ensures
        r@ == match found {
            Some(frame) => frame@,
            None => FrameView::Null,
        },
{
    match found {
        Some(frame) => frame,
        None => RespFrame::Null(RespNull),
    }
}

/// Whether two byte strings are the same.
pub(crate) fn bytes_eq(a: &[u8], b: &[u8]) -> (same: bool)
    ensures
        same == (a@ == b@),
{
    if a.len() != b.len() {
        return false;
    }
    let mut i: usize = 0;
    while i < a.len()
        invariant
            i <= a@.len(),
            a@.len() == b@.len(),
            a@.take(i as int) == b@.take(i as int),
        decreases a@.len() - i,
    {
        if a[i] != b[i] {
            return false;
        }
        i += 1;
    }
    assert(a@.take(i as int) =~= a@);
    assert(b@.take(i as int) =~= b@);
    true
}

/// Checks that a request leads with the verb tokens `names` and has
/// exactly `n_args` elements after them.
///
/// The verb is compared byte for byte, so its case matters. The arity is
/// checked first; the error says which of the two checks failed.
pub fn validate_command(value: &RespArray, names: &[&str], n_args: usize) -> (r: Result<
    (),
    CommandError,
>)
    ensures
        match r {
            Ok(()) => check_command(value@, names@, n_args as nat) == Ok::<(), CommandErrorView>(
                (),
            ),
            Err(e) => check_command(value@, names@, n_args as nat) == Err::<
                (),
                CommandErrorView,
            >(e@),
        },
{
    if value.len() < names.len() || value.len() - names.len() != n_args {
        return Err(CommandError::InvalidArgument(WRONG_ARITY.to_owned()));
    }
    let mut i: usize = 0;
    while i < names.len()
        invariant
            i <= names@.len() <= value@.len(),
            value@.len() == value.0@.len(),
            has_arity(value@, names@.len(), n_args as nat),
            forall|j: int|
                0 <= j < i ==> #[trigger] value@[j] == FrameView::BulkString(
                    encode_utf8(names@[j]@),
                ),
        decreases names@.len() - i,
    {
        let same = match &value.0[i] {
            RespFrame::BulkString(verb) => bytes_eq(verb.0.as_slice(), names[i].as_bytes()),
            _ => false,
        };
        if !same {
            assert(value@[i as int] != FrameView::BulkString(encode_utf8(names@[i as int]@)));
            return Err(CommandError::InvalidArgument(WRONG_VERB.to_owned()));
        }
        i += 1;
    }
    Ok(())
}

/// The elements of a request after its first `start` ones, in order.
pub fn extract_args(value: RespArray, start: usize) -> (args: Vec<RespFrame>)
    ensures
        args@.len() == if start <= value@.len() {
            value@.len() - start
        } else {
            0
        },
        forall|i: int| 0 <= i < args@.len() ==> (#[trigger] args@[i])@ == value@[start + i],
{
    let mut items = value.0;
    if start >= items.len() {
        Vec::new()
    } else {
        let args = items.split_off(start);
        assert forall|i: int| 0 <= i < args@.len() implies (#[trigger] args@[i])@ == value@[start
            + i] by {}
        args
    }
}

/// The text of an argument that has to be text: a bulk string that holds
/// valid UTF-8.
pub(crate) fn into_text(frame: RespFrame) -> (r: Option<String>)
    ensures
        match r {
            Some(text) => text_arg(frame@) == Some(text@),
            None => text_arg(frame@) is None,
        },
{
    match frame {
        RespFrame::BulkString(bytes) => match String::from_utf8(bytes.0) {
            Ok(text) => Some(text),
            Err(_) => None,
        },
        _ => None,
    }
}

/// Reads the verb of a request and finds the constructor that it selects.
fn verb_of(value: &RespArray) -> (r: Result<Verb, CommandError>)
    ensures
        match r {
            Ok(Verb::Get) => value@.len() > 0 && value@[0] == FrameView::BulkString(
                encode_utf8(GET@),
            ),
            Ok(Verb::SetKey) => value@.len() > 0 && value@[0] == FrameView::BulkString(
                encode_utf8(SET@),
            ) && encode_utf8(SET@) != encode_utf8(GET@),
            Ok(Verb::HGet) => value@.len() > 0 && value@[0] == FrameView::BulkString(
                encode_utf8(HGET@),
            ) && encode_utf8(HGET@) != encode_utf8(GET@) && encode_utf8(HGET@) != encode_utf8(
                SET@,
            ),
            Ok(Verb::HSet) => value@.len() > 0 && value@[0] == FrameView::BulkString(
                encode_utf8(HSET@),
            ) && encode_utf8(HSET@) != encode_utf8(GET@) && encode_utf8(HSET@) != encode_utf8(
                SET@,
            ) && encode_utf8(HSET@) != encode_utf8(HGET@),
            Err(e) => parse_request(value@) == Err::<CommandView, CommandErrorView>(e@),
        },
{
    if value.len() == 0 {
        return Err(CommandError::InvalidArgument(NO_VERB.to_owned()));
    }
    match &value.0[0] {
        RespFrame::BulkString(verb) => {
            let verb = verb.0.as_slice();
            if bytes_eq(verb, GET.as_bytes()) {
                Ok(Verb::Get)
            } else if bytes_eq(verb, SET.as_bytes()) {
                Ok(Verb::SetKey)
            } else if bytes_eq(verb, HGET.as_bytes()) {
                Ok(Verb::HGet)
            } else if bytes_eq(verb, HSET.as_bytes()) {
                Ok(Verb::HSet)
            } else {
                Err(CommandError::UnknownCommand(lossy_text(verb)))
            }
        },
        _ => Err(CommandError::InvalidArgument(NO_VERB.to_owned())),
    }
}

impl TryFromSpecImpl<RespArray> for Command {
    open spec fn obeys_try_from_spec() -> bool {
        false
    }

    open spec fn try_from_spec(value: RespArray) -> Result<Command, CommandError> {
        arbitrary()
    }
}

impl TryFrom<RespArray> for Command {
    type Error = CommandError;

    /// Makes the command that the request's verb selects, or says why the
    /// request is no command.
    fn try_from(value: RespArray) -> (r: Result<Command, CommandError>)
        ensures
            match r {
                Ok(cmd) => parse_request(value@) == Ok::<CommandView, CommandErrorView>(cmd@),
                Err(e) => parse_request(value@) == Err::<CommandView, CommandErrorView>(e@),
            },
    {
        match verb_of(&value) {
            Err(e) => Err(e),
            Ok(Verb::Get) => match Get::try_from(value) {
                Ok(cmd) => Ok(Command::Get(cmd)),
                Err(e) => Err(e),
            },
            Ok(Verb::SetKey) => match SetKey::try_from(value) {
                Ok(cmd) => Ok(Command::SetKey(cmd)),
                Err(e) => Err(e),
            },
            Ok(Verb::HGet) => match HGet::try_from(value) {
                Ok(cmd) => Ok(Command::HGet(cmd)),
                Err(e) => Err(e),
            },
            Ok(Verb::HSet) => match HSet::try_from(value) {
                Ok(cmd) => Ok(Command::HSet(cmd)),
                Err(e) => Err(e),
            },
        }
    }
}

impl TryFromSpecImpl<RespFrame> for Command {
    open spec fn obeys_try_from_spec() -> bool {
        false
    }

    open spec fn try_from_spec(value: RespFrame) -> Result<Command, CommandError> {
        arbitrary()
    }
}

impl TryFrom<RespFrame> for Command {
    type Error = CommandError;

    /// Makes the command that a request frame stands for, or says why the
    /// frame is no command.
    fn try_from(value: RespFrame) -> (r: Result<Command, CommandError>)
        ensures
            match r {
                Ok(cmd) => parse_command(value@) == Ok::<CommandView, CommandErrorView>(cmd@),
                Err(e) => parse_command(value@) == Err::<CommandView, CommandErrorView>(e@),
            },
    {
        match value {
            RespFrame::Array(array) => {
                Command::try_from(array)
            },
            _ => Err(CommandError::InvalidArgument(NOT_AN_ARRAY.to_owned())),
        }
    }
}

impl Command {
    /// Carries the command out against the store and gives the response
    /// frame. This never fails: a lookup that finds nothing answers with
    /// the null frame, and a write answers `OK`.
    pub fn execute(self, backend: &Backend) -> (r: RespFrame)
        ensures
            (self@ is SetKey || self@ is HSet) ==> r@ == FrameView::SimpleString("OK"@),
    {
        match self {
            Command::Get(cmd) => cmd.execute(backend),
            Command::SetKey(cmd) => cmd.execute(backend),
            Command::HGet(cmd) => cmd.execute(backend),
            Command::HSet(cmd) => cmd.execute(backend),
        }
    }
}

} // verus!
