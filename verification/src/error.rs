//! The errors that channel operations report.

use vstd::prelude::*;

verus! {

/// Why an operation without a deadline failed.
#[derive(Clone, Copy, Debug, PartialEq, Eq, Structural)]
pub enum Error {
    /// The channel is closed on both sides.
    Closed,
    /// The channel is closed from the send side.
    SendClosed,
    /// The channel is closed from the receive side.
    ReceiveClosed,
}

/// Why an operation with a deadline failed.
#[derive(Clone, Copy, Debug, PartialEq, Eq, Structural)]
pub enum ErrorTimeout {
    /// The channel is closed on both sides.
    Closed,
    /// The channel is closed from the send side.
    SendClosed,
    /// The channel is closed from the receive side.
    ReceiveClosed,
    /// The deadline passed and the operation was taken back.
    Timeout,
}

impl Error {
    /// The text that describes the error.
    pub open spec fn message_spec(self) -> Seq<char> {
        match self {
            Error::Closed => "channel is closed"@,
            Error::SendClosed => "channel send side is closed"@,
            Error::ReceiveClosed => "channel receive side is closed"@,
        }
    }

    /// The text that describes the error.
    pub fn message(&self) -> (text: String)
        ensures
            text@ == self.message_spec(),
    {
        match self {
            Error::Closed => "channel is closed".to_owned(),
            Error::SendClosed => "channel send side is closed".to_owned(),
            Error::ReceiveClosed => "channel receive side is closed".to_owned(),
        }
    }

    /// The same error, as an operation with a deadline reports it.
    pub open spec fn with_deadline_spec(self) -> ErrorTimeout {
        match self {
            Error::Closed => ErrorTimeout::Closed,
            Error::SendClosed => ErrorTimeout::SendClosed,
            Error::ReceiveClosed => ErrorTimeout::ReceiveClosed,
        }
    }

    /// The same error, as an operation with a deadline reports it.
    pub fn with_deadline(self) -> (e: ErrorTimeout)
        ensures
            e == self.with_deadline_spec(),
    {
        match self {
            Error::Closed => ErrorTimeout::Closed,
            Error::SendClosed => ErrorTimeout::SendClosed,
            Error::ReceiveClosed => ErrorTimeout::ReceiveClosed,
        }
    }
}

impl ErrorTimeout {
    /// The text that describes the error.
    pub open spec fn message_spec(self) -> Seq<char> {
        match self {
            ErrorTimeout::Closed => "channel is closed"@,
            ErrorTimeout::SendClosed => "channel send side is closed"@,
            ErrorTimeout::ReceiveClosed => "channel receive side is closed"@,
            ErrorTimeout::Timeout => "channel operation timeout"@,
        }
    }

    /// The text that describes the error.
    pub fn message(&self) -> (text: String)
        ensures
            text@ == self.message_spec(),
    {
        match self {
            ErrorTimeout::Closed => "channel is closed".to_owned(),
            ErrorTimeout::SendClosed => "channel send side is closed".to_owned(),
            ErrorTimeout::ReceiveClosed => "channel receive side is closed".to_owned(),
            ErrorTimeout::Timeout => "channel operation timeout".to_owned(),
        }
    }
}

} // verus!
