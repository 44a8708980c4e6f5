//! The way out: what stands between the callers of `send` and the write half
//! of the transport.
//!
//! A [`SendGate`] exists for as long as a write half is installed. It turns a
//! message into the one text frame that is written for it, and a failed write
//! into the error that the caller sees. That only one frame is written at a
//! time is the business of the lock that the caller holds around it.

use vstd::prelude::*;
use crate::codec::wire_form;
use crate::message::ChatMessage;

verus! {

/// Why a message was not sent.
#[derive(Debug, PartialEq, Eq)]
pub enum SendError {
    /// There is no connection: nothing was written.
    NotConnected,
    /// The write failed; the text says how. The connection's state is as it
    /// was.
    TransportError(String),
}

/// How the write of one frame ended.
#[derive(Debug, PartialEq, Eq)]
pub enum WriteOutcome {
    /// The frame is out.
    Written,
    /// The transport reported a failure; the text says which.
    Failed(String),
}

/// What a send comes to, given how the write of its frame ended.
pub open spec fn settled(outcome: WriteOutcome) -> Result<(), SendError> {
    match outcome {
        WriteOutcome::Written => Ok(()),
        WriteOutcome::Failed(cause) => Err(SendError::TransportError(cause)),
    }
}

/// The keeper of an installed write half.
#[derive(Debug)]
pub struct SendGate {}

impl SendGate {
    /// The keeper of a write half that has just been installed.
    pub fn new() -> (keeper: SendGate) {
        SendGate {  }
    }

    /// The text of the single frame that carries a message.
    pub fn frame(&self, message: &ChatMessage) -> (text: String)
        ensures
            text@ == wire_form(message@),
    {
        message.encode()
    }

    /// What the caller of `send` is told once the write has ended: success,
    /// or the transport's failure as a `TransportError`.
    pub fn settle(outcome: WriteOutcome) -> (result: Result<(), SendError>)
        ensures
            result == settled(outcome),
    {
        match outcome {
            WriteOutcome::Written => Ok(()),
            WriteOutcome::Failed(cause) => Err(SendError::TransportError(cause)),
        }
    }
}

} // verus!
