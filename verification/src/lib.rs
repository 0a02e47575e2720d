//! Server side of the RESP wire protocol.
//!
//! - [`resp`]: the frames, their canonical encoding and the incremental
//!   decoder, with the proofs that the two are inverse to one another.
//! - [`cmd`]: the commands that request frames stand for, and the checks
//!   that turn a frame into a command.
//! - [`backend`]: the store that all connections share.
//! - [`network`]: what a connection does with each request, and how it
//!   frames its byte stream.

pub mod backend;
pub mod cmd;
pub mod network;
pub mod resp;

pub use backend::{Backend, BackendInner};
pub use cmd::hmap::{HGet, HSet};
pub use cmd::map::{Get, SetKey};
pub use cmd::{resp_ok, Command, CommandError};
pub use network::{request_handler, stream_step, RespFrameCodec, StreamAction, StreamEvent};
pub use resp::array::{RespArray, RespNullArray};
pub use resp::bulk_string::{BulkString, RespNullBulkString};
pub use resp::frame::RespFrame;
pub use resp::null::RespNull;
pub use resp::simple_error::SimpleError;
pub use resp::simple_string::SimpleString;
pub use resp::RespError;
