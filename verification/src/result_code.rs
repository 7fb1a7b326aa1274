//! The fixed three-digit status codes of the control-channel protocol.

use vstd::prelude::*;

verus! {

/// A reply status code. Every command outcome is reported to the client
/// through exactly one of these values on the control channel.
#[derive(Clone, Copy, Debug, PartialEq, Eq, Structural)]
pub enum ResultCode {
    DataConnectionAlreadyOpen,
    FileStatusOk,
    CommandOk,
    PATHNAMECreated,
    ServiceReadyForNewUser,
    ServiceClosingControlConnection,
    ClosingDataConnection,
    EnteringPassiveMode,
    UserLoggedIn,
    ServiceNotAvailable,
    ConnectionClosed,
    InvalidUsernameOrPassword,
    UnknownCommand,
    InvalidParameterOrArgument,
    CommandNotImplemented,
    FileNotFound,
}

impl ResultCode {
    /// The numeric value that goes on the wire for this code.
    pub open spec fn spec_value(self) -> u32 {
        match self {
            ResultCode::DataConnectionAlreadyOpen => 125,
            ResultCode::FileStatusOk => 150,
            ResultCode::CommandOk => 200,
            ResultCode::PATHNAMECreated => 212,
            ResultCode::ServiceReadyForNewUser => 220,
            ResultCode::ServiceClosingControlConnection => 221,
            ResultCode::ClosingDataConnection => 226,
            ResultCode::EnteringPassiveMode => 227,
            ResultCode::UserLoggedIn => 230,
            ResultCode::ServiceNotAvailable => 425,
            ResultCode::ConnectionClosed => 426,
            ResultCode::InvalidUsernameOrPassword => 430,
            ResultCode::UnknownCommand => 500,
            ResultCode::InvalidParameterOrArgument => 501,
            ResultCode::CommandNotImplemented => 502,
            ResultCode::FileNotFound => 550,
        }
    }

    /// Every code is a three-digit number.
    pub proof fn lemma_value_three_digits(self)
        ensures
            100 <= self.spec_value() <= 599,
    {
    }

    #[verifier::when_used_as_spec(spec_value)]
    pub fn value(self) -> (v: u32)
        ensures
            v == self.spec_value(),
    {
        match self {
            ResultCode::DataConnectionAlreadyOpen => 125,
            ResultCode::FileStatusOk => 150,
            ResultCode::CommandOk => 200,
            ResultCode::PATHNAMECreated => 212,
            ResultCode::ServiceReadyForNewUser => 220,
            ResultCode::ServiceClosingControlConnection => 221,
            ResultCode::ClosingDataConnection => 226,
            ResultCode::EnteringPassiveMode => 227,
            ResultCode::UserLoggedIn => 230,
            ResultCode::ServiceNotAvailable => 425,
            ResultCode::ConnectionClosed => 426,
            ResultCode::InvalidUsernameOrPassword => 430,
            ResultCode::UnknownCommand => 500,
            ResultCode::InvalidParameterOrArgument => 501,
            ResultCode::CommandNotImplemented => 502,
            ResultCode::FileNotFound => 550,
        }
    }
}

} // verus!
