//! Where the two channels of a session live.
use vstd::prelude::*;
use vstd::string::StringExecFns;

use crate::protocol::TermSize;

verus! {

/// The two endpoints of a session: the data channel carries the raw
/// terminal byte stream, the control channel carries framed messages.
#[derive(Debug)]
pub struct SocketPaths {
    pub data: String,
    pub control: String,
}

/// Path of the data endpoint of session `id` under directory `dir`.
pub open spec fn data_path(dir: Seq<char>, id: Seq<char>) -> Seq<char> {
    dir + "/"@ + id + ".data.sock"@
}

/// Path of the control endpoint of session `id` under directory `dir`.
pub open spec fn control_path(dir: Seq<char>, id: Seq<char>) -> Seq<char> {
    dir + "/"@ + id + ".ctrl.sock"@
}

impl SocketPaths {
    /// The endpoints of session `session_id` under `dir`. Client and server
    /// both derive them this way, so they agree without talking.
    pub fn for_session(dir: &str, session_id: &str) -> (r: SocketPaths)
        ensures
            r.data@ == data_path(dir@, session_id@),
            r.control@ == control_path(dir@, session_id@),
    {
        let data = String::from_str(dir).concat("/").concat(session_id).concat(".data.sock");
        let control = String::from_str(dir).concat("/").concat(session_id).concat(".ctrl.sock");
        SocketPaths { data, control }
    }
}

/// What a client needs to attach to a session.
#[derive(Debug)]
pub struct ClientConfig {
    /// Endpoints of the session
    pub socket_paths: SocketPaths,
    /// Initial terminal size
    pub term_size: TermSize,
}

} // verus!
