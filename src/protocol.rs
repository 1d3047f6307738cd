//! Messages exchanged on the control channel.
use vstd::prelude::*;

verus! {

/// Version of the control protocol spoken by this client. Client and server
/// are compatible only when their versions are equal.
pub const PROTOCOL_VERSION: u32 = 1;

/// Size of a terminal, in character cells.
#[derive(Clone, Copy, Debug, PartialEq, Eq, Structural)]
pub struct TermSize {
    pub columns: u16,
    pub rows: u16,
}

impl TermSize {
    pub fn new(columns: u16, rows: u16) -> (r: TermSize)
        ensures
            r == (TermSize { columns, rows }),
    {
        TermSize { columns, rows }
    }

    /// Size of a console window given by the inclusive cell coordinates of
    /// its edges. Each extent is `far - near + 1`, taken modulo 2^16.
    pub fn from_window_rect(left: i16, top: i16, right: i16, bottom: i16) -> (r: TermSize)
        ensures
            r.columns as int == extent(left as int, right as int),
            r.rows as int == extent(top as int, bottom as int),
    {
        TermSize { columns: wrapped_extent(left, right), rows: wrapped_extent(top, bottom) }
    }
}

fn wrapped_extent(near: i16, far: i16) -> (r: u16)
    ensures
        r as int == extent(near as int, far as int),
{
    let d: i32 = far as i32 - near as i32 + 1;
    let m: i32 = if d < 0 {
        d + 0x10000
    } else if d >= 0x10000 {
        d - 0x10000
    } else {
        d
    };
    m as u16
}

/// Number of cells from `near` to `far` inclusive, reduced modulo 2^16.
pub open spec fn extent(near: int, far: int) -> int {
    (far - near + 1) % 0x10000
}

/// First message of the client on a fresh connection.
#[derive(Clone, Copy, Debug, PartialEq, Eq, Structural)]
pub struct ClientHello {
    pub term_size: TermSize,
}

impl ClientHello {
    pub fn new(term_size: TermSize) -> (r: ClientHello)
        ensures
            r.term_size == term_size,
    {
        ClientHello { term_size }
    }
}

/// The server's answer to a compatible `ClientHello`.
#[derive(Debug)]
pub struct ServerHello {
    pub protocol_version: u32,
    pub server_version: String,
    pub session_id: String,
}

/// Messages the client sends on the control channel.
#[derive(Clone, Copy, Debug, PartialEq, Eq, Structural)]
pub enum ClientControl {
    Hello(ClientHello),
    Resize(TermSize),
    Detach,
}

/// Messages the server sends on the control channel.
#[derive(Debug)]
pub enum ServerControl {
    Hello(ServerHello),
    VersionMismatch { server_version: String },
    Error { message: String },
    /// The server is ending the session of its own accord.
    Quit { reason: String },
}

} // verus!
