//! The error codes of the wire.

use vstd::prelude::*;

verus! {

/// python-matter-server compatible error codes.
#[derive(Debug, Clone, Copy, PartialEq, Eq, Structural)]
pub enum ServerErrorCode {
    UnknownError,
    NodeCommissionFailed,
    NodeInterviewFailed,
    NodeNotReady,
    NodeNotResolving,
    NodeNotExists,
    VersionMismatch,
    SdkStackError,
    InvalidArguments,
    InvalidCommand,
    UpdateCheckError,
    UpdateError,
    IcdMultiAdmin,
    OtaUploadError,
}

impl ServerErrorCode {
    pub open spec fn number(self) -> u16 {
        match self {
            ServerErrorCode::UnknownError => 0,
            ServerErrorCode::NodeCommissionFailed => 1,
            ServerErrorCode::NodeInterviewFailed => 2,
            ServerErrorCode::NodeNotReady => 3,
            ServerErrorCode::NodeNotResolving => 4,
            ServerErrorCode::NodeNotExists => 5,
            ServerErrorCode::VersionMismatch => 6,
            ServerErrorCode::SdkStackError => 7,
            ServerErrorCode::InvalidArguments => 8,
            ServerErrorCode::InvalidCommand => 9,
            ServerErrorCode::UpdateCheckError => 10,
            ServerErrorCode::UpdateError => 11,
            ServerErrorCode::IcdMultiAdmin => 100,
            ServerErrorCode::OtaUploadError => 101,
        }
    }

    /// The number a client sees.
    pub fn code(self) -> (res: u16)
        ensures
            res == self.number(),
    {
        match self {
            ServerErrorCode::UnknownError => 0,
            ServerErrorCode::NodeCommissionFailed => 1,
            ServerErrorCode::NodeInterviewFailed => 2,
            ServerErrorCode::NodeNotReady => 3,
            ServerErrorCode::NodeNotResolving => 4,
            ServerErrorCode::NodeNotExists => 5,
            ServerErrorCode::VersionMismatch => 6,
            ServerErrorCode::SdkStackError => 7,
            ServerErrorCode::InvalidArguments => 8,
            ServerErrorCode::InvalidCommand => 9,
            ServerErrorCode::UpdateCheckError => 10,
            ServerErrorCode::UpdateError => 11,
            ServerErrorCode::IcdMultiAdmin => 100,
            ServerErrorCode::OtaUploadError => 101,
        }
    }
}

/// A client can tell any two errors apart by their number.
pub proof fn codes_are_distinct(a: ServerErrorCode, b: ServerErrorCode)
    requires
        a.number() == b.number(),
    ensures
        a == b,
{
}

/// The numbers clients know the errors by: in a row from 0, and two from 100.
pub proof fn codes_are_the_known_numbers()
    ensures
        ServerErrorCode::UnknownError.number() == 0,
        ServerErrorCode::NodeCommissionFailed.number() == 1,
        ServerErrorCode::NodeInterviewFailed.number() == 2,
        ServerErrorCode::NodeNotReady.number() == 3,
        ServerErrorCode::NodeNotResolving.number() == 4,
        ServerErrorCode::NodeNotExists.number() == 5,
        ServerErrorCode::VersionMismatch.number() == 6,
        ServerErrorCode::SdkStackError.number() == 7,
        ServerErrorCode::InvalidArguments.number() == 8,
        ServerErrorCode::InvalidCommand.number() == 9,
        ServerErrorCode::UpdateCheckError.number() == 10,
        ServerErrorCode::UpdateError.number() == 11,
        ServerErrorCode::IcdMultiAdmin.number() == 100,
        ServerErrorCode::OtaUploadError.number() == 101,
{
}

} // verus!
