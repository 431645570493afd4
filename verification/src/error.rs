use vstd::prelude::*;

verus! {

/// Why a session was torn down. Every kind is fatal: nothing is retried.
#[derive(Clone, Copy, Debug, PartialEq, Eq, Structural)]
pub enum SessionError {
    /// A frame of the wrong type, shape or order arrived.
    ProtocolViolation,
    /// The fingerprint does not occur in the receiver's keystream buffer.
    LookupFailure,
    /// The transport reported an I/O error.
    ChannelFailure,
}

impl SessionError {
    /// A short human-readable description of the error.
    pub fn describe(&self) -> (text: &'static str)
        ensures
            text@ == match *self {
                SessionError::ProtocolViolation => "protocol violation"@,
                SessionError::LookupFailure => "fingerprint not found in keystream"@,
                SessionError::ChannelFailure => "channel failure"@,
            },
    {
        match self {
            SessionError::ProtocolViolation => "protocol violation",
            SessionError::LookupFailure => "fingerprint not found in keystream",
            SessionError::ChannelFailure => "channel failure",
        }
    }
}

} // verus!
