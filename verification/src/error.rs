//! The ways in which talking to a bridge can go wrong.

use vstd::prelude::*;

verus! {

/// What went wrong.
#[derive(Clone, Copy, Debug, PartialEq, Eq, Structural)]
pub enum ErrorKind {
    /// A request could not be sent, or no answer came back.
    NetworkFailure,
    /// The bridge answered with something other than the JSON expected.
    ProtocolError,
    /// A command needs a credential and the bridge has none yet.
    NotRegistered,
    /// No stored credentials were found.
    NotFound,
    /// The link button has not been pressed. A handshake never ends with
    /// this: it waits and asks again.
    DeviceBusy,
    /// A handshake was started with no address to probe.
    InvariantViolation,
    /// The stored credentials could not be written or removed.
    StoreFailure,
}

impl ErrorKind {
    /// A short description for the operator.
    pub fn describe(&self) -> (r: &'static str)
        ensures
            r@ == match self {
                ErrorKind::NetworkFailure => "the bridge could not be reached"@,
                ErrorKind::ProtocolError => "the bridge sent an unexpected answer"@,
                ErrorKind::NotRegistered => "no credential has been issued for this bridge"@,
                ErrorKind::NotFound => "no stored credentials were found"@,
                ErrorKind::DeviceBusy => "the link button has not been pressed"@,
                ErrorKind::InvariantViolation => "no address was given to register against"@,
                ErrorKind::StoreFailure => "the stored credentials could not be changed"@,
            },
    {
        match self {
            ErrorKind::NetworkFailure => "the bridge could not be reached",
            ErrorKind::ProtocolError => "the bridge sent an unexpected answer",
            ErrorKind::NotRegistered => "no credential has been issued for this bridge",
            ErrorKind::NotFound => "no stored credentials were found",
            ErrorKind::DeviceBusy => "the link button has not been pressed",
            ErrorKind::InvariantViolation => "no address was given to register against",
            ErrorKind::StoreFailure => "the stored credentials could not be changed",
        }
    }
}

} // verus!
