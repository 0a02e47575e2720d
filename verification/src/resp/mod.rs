//! The frame data model and its codec.

use vstd::prelude::*;

pub mod array;
pub mod buffer;
pub mod bulk_string;
pub mod frame;
pub mod laws;
pub mod null;
pub mod scan;
pub mod simple_error;
pub mod simple_string;
pub mod text;
pub mod wire;

verus! {

/// Why a decode attempt did not yield a frame.
#[derive(Debug, Clone, Copy, PartialEq, Eq, Structural)]
pub enum RespError {
    /// More bytes are needed before a frame can be extracted. Nothing was
    /// consumed; try again once more input has arrived.
    NotComplete,
    /// The bytes at the head of the buffer can never become a frame.
    Malformed,
}

impl RespError {
    /// The error as a text for people.
    pub fn message(&self) -> (text: String)
        ensures
            text@ == match self {
                RespError::NotComplete => "frame is not complete"@,
                RespError::Malformed => "frame is malformed"@,
            },
    {
        match self {
            RespError::NotComplete => "frame is not complete".to_owned(),
            RespError::Malformed => "frame is malformed".to_owned(),
        }
    }
}

} // verus!
