//! The closed set of ways a client session ends.
use vstd::prelude::*;

verus! {

/// Declares std's I/O error, which the library carries through unopened so
/// that the operating system's diagnostics reach the caller.
#[verifier::external_type_specification]
#[verifier::external_body]
pub struct ExIoError(std::io::Error);

/// Why a session ended in failure.
#[derive(Debug)]
pub enum ClientError {
    /// An endpoint could not be reached.
    Connect(std::io::Error),
    /// A channel failed after the connection was made.
    Io(std::io::Error),
    /// The control channel closed before the server replied.
    UnexpectedEof,
    /// The server's reply could not be decoded; holds the decoder's message.
    Malformed(String),
    /// The server reported an error.
    Server(String),
    /// The server replied with a message that does not answer a hello.
    UnexpectedResponse,
}

/// Reason the client exited
#[derive(Debug)]
pub enum ClientExitReason {
    /// Server closed the connection normally
    ServerQuit,
    /// User requested detach
    Detached,
    /// Version mismatch between client and server
    VersionMismatch { server_version: String },
    /// Connection error
    Error(ClientError),
}

} // verus!
