//! Client side of a detachable terminal session: the wire messages, the
//! framing of the control channel, the handshake and relay decisions, and the
//! classification of every way a session ends.
//!
//! The library performs no I/O. A driver owns the sockets and the terminal,
//! hands each outcome to [`session::ClientSession::step`] as an
//! [`session::Event`], and performs the [`session::Action`]s it gets back.
pub mod exit;
pub mod framing;
pub mod guarantees;
pub mod protocol;
pub mod session;
pub mod transport;

pub use exit::{ClientError, ClientExitReason};
pub use protocol::{
    ClientControl, ClientHello, ServerControl, ServerHello, TermSize, PROTOCOL_VERSION,
};
pub use transport::{ClientConfig, SocketPaths};
pub use framing::{encode_frame, FrameDecoder};
pub use session::{
    run_client, run_client_relay, run_client_with_connection, Action, ClientSession, Event, Phase,
    RelayBackend, Reply, DETACH_KEY,
};
