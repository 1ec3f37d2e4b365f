//! The failure taxonomy of the command surface.

use vstd::prelude::*;

verus! {

/// Every way a single command can fail. Normalization of values never fails
/// (it degrades instead), so no variant exists for it.
#[derive(Debug)]
pub enum DbError {
    /// The connection descriptor names a backend kind this core does not implement.
    UnsupportedBackend(String),
    /// The native handshake, authentication or network setup failed; the message
    /// is passed through verbatim.
    ConnectFailure(String),
    /// An operation referenced a connection identifier with no live entry.
    NotConnected,
    /// The embedded command syntax could not be parsed into a dispatchable operation.
    MalformedCommand(String),
    /// The backend accepted the command but reported a failure.
    NativeExecutionFailure(String),
    /// A recognized but unimplemented command verb.
    UnsupportedOperation(String),
}

impl DbError {
    /// The message a caller sees for this error.
    pub open spec fn spec_message(self) -> Seq<char> {
        match self {
            DbError::UnsupportedBackend(kind) => "Unsupported database type: "@ + kind@,
            DbError::ConnectFailure(msg) => msg@,
            DbError::NotConnected => "Not connected"@,
            DbError::MalformedCommand(msg) => msg@,
            DbError::NativeExecutionFailure(msg) => msg@,
            DbError::UnsupportedOperation(cmd) => "Unsupported command: "@ + cmd@,
        }
    }

    /// Renders the error as the message string surfaced to the caller.
    pub fn message(&self) -> (r: String)
        ensures
            r@ == self.spec_message(),
    {
        match self {
            DbError::UnsupportedBackend(kind) => String::from_str(
                "Unsupported database type: ",
            ).concat(kind.as_str()),
            DbError::ConnectFailure(msg) => msg.clone(),
            DbError::NotConnected => String::from_str("Not connected"),
            DbError::MalformedCommand(msg) => msg.clone(),
            DbError::NativeExecutionFailure(msg) => msg.clone(),
            DbError::UnsupportedOperation(cmd) => String::from_str("Unsupported command: ").concat(
                cmd.as_str(),
            ),
        }
    }
}

} // verus!
