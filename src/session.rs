//! The client session as a state machine.
//!
//! A driver performs the I/O: it hands every outcome to
//! [`ClientSession::step`] as an [`Event`] and carries out the [`Action`]s it
//! gets back, in order. The session walks through connecting, the handshake
//! and the relay, and ends with exactly one [`Action::Finish`].
use vstd::prelude::*;

use crate::exit::{ClientError, ClientExitReason};
use crate::protocol::{ClientControl, ClientHello, ServerControl, TermSize, PROTOCOL_VERSION};
use crate::transport::{ClientConfig, SocketPaths};

verus! {

/// The byte that, typed on the local terminal during the relay, detaches the
/// client from the session (Ctrl-\ in raw mode).
pub const DETACH_KEY: u8 = 0x1c;

/// Where the session stands.
#[derive(Clone, Copy, Debug, PartialEq, Eq, Structural)]
pub enum Phase {
    /// Waiting for both channels to open.
    Connecting,
    /// Hello sent, waiting for the server's reply.
    Handshaking,
    /// Relaying bytes between the terminal and the data channel.
    Relaying,
    /// Ended; the reason has been reported.
    Finished,
}

/// How the relay learns that the terminal was resized. Chosen once, at
/// startup, from the platform.
#[derive(Clone, Copy, Debug, PartialEq, Eq, Structural)]
pub enum RelayBackend {
    /// An asynchronous window-change signal raises a flag.
    Signal,
    /// The terminal size is queried on every pass of the loop, and the data
    /// channel becomes non-blocking only after its first successful read.
    Polling,
}

/// The state of a client session.
#[derive(Clone, Copy, Debug, PartialEq, Eq, Structural)]
pub struct ClientSession {
    pub phase: Phase,
    pub backend: RelayBackend,
    /// The terminal size the server was last told of.
    pub term_size: TermSize,
    /// A resize was signalled and not yet forwarded.
    pub resize_pending: bool,
    /// The data channel has been switched to non-blocking mode.
    pub data_nonblocking: bool,
    /// The terminal is in raw mode and must be restored.
    pub raw_mode: bool,
}

/// What the server answered to the hello, as the driver read it.
#[derive(Debug)]
pub enum Reply {
    /// A message that decoded.
    Message(ServerControl),
    /// The control channel closed cleanly before a message arrived.
    Closed,
    /// A frame arrived that does not decode; holds the decoder's message.
    Malformed(String),
}

/// Something that happened, reported by the driver.
#[derive(Debug)]
pub enum Event {
    /// Both channels are open.
    Connected,
    /// The reply to the hello.
    Reply(Reply),
    /// Bytes read from the data channel.
    Data(Vec<u8>),
    /// The data channel reached a clean end of stream.
    DataEof,
    /// Bytes read from the local terminal.
    Input(Vec<u8>),
    /// The window-change signal fired.
    ResizeSignal,
    /// The loop checks for resizes; holds the terminal's size now.
    Tick(TermSize),
    /// Nothing was ready on any source.
    Idle,
    /// An I/O operation failed.
    Failed(std::io::Error),
}

/// Something the driver must do.
#[derive(Debug)]
pub enum Action {
    /// Open both channels.
    Connect(SocketPaths),
    /// Send a message on the control channel.
    SendControl(ClientControl),
    /// Block until one message arrives on the control channel.
    ReadControl,
    /// Put the local terminal into raw mode.
    EnterRawMode,
    /// Switch the data channel to non-blocking mode.
    SetDataNonblocking,
    /// Write bytes to the local terminal.
    WriteOutput(Vec<u8>),
    /// Write bytes to the data channel.
    WriteData(Vec<u8>),
    /// Nothing was ready: pause briefly before the next pass.
    Sleep,
    /// Take the local terminal out of raw mode.
    RestoreTerminal,
    /// Stop, and report this reason to the caller.
    Finish(ClientExitReason),
}

/// An [`Action`] with its byte buffers seen as sequences.
pub enum ActionView {
    Connect(SocketPaths),
    SendControl(ClientControl),
    ReadControl,
    EnterRawMode,
    SetDataNonblocking,
    WriteOutput(Seq<u8>),
    WriteData(Seq<u8>),
    Sleep,
    RestoreTerminal,
    Finish(ClientExitReason),
}

impl View for Action {
    type V = ActionView;

    open spec fn view(&self) -> ActionView {
        match self {
            Action::Connect(p) => ActionView::Connect(*p),
            Action::SendControl(m) => ActionView::SendControl(*m),
            Action::ReadControl => ActionView::ReadControl,
            Action::EnterRawMode => ActionView::EnterRawMode,
            Action::SetDataNonblocking => ActionView::SetDataNonblocking,
            Action::WriteOutput(b) => ActionView::WriteOutput(b@),
            Action::WriteData(b) => ActionView::WriteData(b@),
            Action::Sleep => ActionView::Sleep,
            Action::RestoreTerminal => ActionView::RestoreTerminal,
            Action::Finish(r) => ActionView::Finish(*r),
        }
    }
}

/// The actions of a list, seen through their views.
pub open spec fn views(acts: Seq<Action>) -> Seq<ActionView> {
    acts.map_values(|a: Action| a@)
}

/// `i` is the position of the first detach key in `input`.
pub open spec fn is_first_detach(input: Seq<u8>, i: int) -> bool {
    &&& 0 <= i < input.len()
    &&& input[i] == DETACH_KEY
    &&& forall|j: int| 0 <= j < i ==> input[j] != DETACH_KEY
}

/// The position of the first detach key in `input`, if it holds one.
pub open spec fn detach_index(input: Seq<u8>) -> Option<int> {
    if exists|i: int| is_first_detach(input, i) {
        Some(choose|i: int| is_first_detach(input, i))
    } else {
        None
    }
}

/// Forwarding typed bytes to the data channel; nothing when there are none.
pub open spec fn forward(bytes: Seq<u8>) -> Seq<ActionView> {
    if bytes.len() > 0 {
        seq![ActionView::WriteData(bytes)]
    } else {
        seq![]
    }
}

impl ClientSession {
    /// A session about to connect, for a terminal of `size`.
    pub open spec fn initial(size: TermSize, backend: RelayBackend) -> ClientSession {
        ClientSession {
            phase: Phase::Connecting,
            backend,
            term_size: size,
            resize_pending: false,
            data_nonblocking: false,
            raw_mode: false,
        }
    }

    /// A session whose hello has been answered with a compatible version.
    pub open spec fn handshaken(size: TermSize, backend: RelayBackend) -> ClientSession {
        ClientSession { phase: Phase::Handshaking, ..ClientSession::initial(size, backend) }
    }

    /// The terminal is in raw mode exactly while the relay runs, and the data
    /// channel is never made non-blocking before the relay.
    pub open spec fn wf(self) -> bool {
        &&& self.raw_mode <==> self.phase == Phase::Relaying
        &&& (self.phase == Phase::Connecting || self.phase == Phase::Handshaking)
            ==> !self.data_nonblocking
    }

    /// The session once the terminal has been restored.
    pub open spec fn restored(self) -> ClientSession {
        ClientSession { raw_mode: false, ..self }
    }

    /// Ending the session: restore the terminal if it is raw, then report.
    pub open spec fn finish(self, reason: ClientExitReason) -> (ClientSession, Seq<ActionView>) {
        let restore = if self.raw_mode {
            seq![ActionView::RestoreTerminal]
        } else {
            seq![]
        };
        (
            ClientSession { phase: Phase::Finished, raw_mode: false, ..self },
            restore + seq![ActionView::Finish(reason)],
        )
    }

    /// Entering the relay: raw mode once, and at once a non-blocking data
    /// channel where the backend allows it.
    pub open spec fn enter_relay(self) -> (ClientSession, Seq<ActionView>) {
        let nonblocking_now = self.backend == RelayBackend::Signal;
        (
            ClientSession {
                phase: Phase::Relaying,
                raw_mode: true,
                data_nonblocking: self.data_nonblocking || nonblocking_now,
                ..self
            },
            if nonblocking_now {
                seq![ActionView::EnterRawMode, ActionView::SetDataNonblocking]
            } else {
                seq![ActionView::EnterRawMode]
            },
        )
    }

    /// Classifying the server's reply to the hello.
    pub open spec fn on_reply(self, reply: Reply) -> (ClientSession, Seq<ActionView>) {
        match reply {
            Reply::Message(ServerControl::Hello(h)) => {
                if h.protocol_version == PROTOCOL_VERSION {
                    self.enter_relay()
                } else {
                    self.finish(ClientExitReason::VersionMismatch { server_version: h.server_version })
                }
            },
            Reply::Message(ServerControl::VersionMismatch { server_version }) => {
                self.finish(ClientExitReason::VersionMismatch { server_version })
            },
            Reply::Message(ServerControl::Error { message }) => {
                self.finish(ClientExitReason::Error(ClientError::Server(message)))
            },
            Reply::Message(ServerControl::Quit { .. }) => {
                self.finish(ClientExitReason::Error(ClientError::UnexpectedResponse))
            },
            Reply::Closed => self.finish(ClientExitReason::Error(ClientError::UnexpectedEof)),
            Reply::Malformed(m) => self.finish(ClientExitReason::Error(ClientError::Malformed(m))),
        }
    }

    /// One pass of the relay.
    pub open spec fn on_relay(self, ev: Event) -> (ClientSession, Seq<ActionView>) {
        match ev {
            Event::Data(b) => {
                let set = if self.data_nonblocking {
                    seq![]
                } else {
                    seq![ActionView::SetDataNonblocking]
                };
                (
                    ClientSession { data_nonblocking: true, ..self },
                    set + seq![ActionView::WriteOutput(b@)],
                )
            },
            Event::DataEof => self.finish(ClientExitReason::ServerQuit),
            Event::Input(b) => match detach_index(b@) {
                None => (self, forward(b@)),
                Some(i) => {
                    let (s, fin) = self.finish(ClientExitReason::Detached);
                    (
                        s,
                        forward(b@.take(i)) + seq![ActionView::SendControl(ClientControl::Detach)]
                            + fin,
                    )
                },
            },
            Event::ResizeSignal => (ClientSession { resize_pending: true, ..self }, seq![]),
            Event::Tick(size) => {
                if self.resize_pending || (self.backend == RelayBackend::Polling && size
                    != self.term_size) {
                    (
                        ClientSession { term_size: size, resize_pending: false, ..self },
                        seq![ActionView::SendControl(ClientControl::Resize(size))],
                    )
                } else {
                    (self, seq![])
                }
            },
            Event::Idle => (self, seq![ActionView::Sleep]),
            Event::Failed(e) => self.finish(ClientExitReason::Error(ClientError::Io(e))),
            _ => (self, seq![]),
        }
    }

    /// The next state and the actions that an event brings about. Events that
    /// do not belong to the current phase change nothing.
    pub open spec fn next(self, ev: Event) -> (ClientSession, Seq<ActionView>) {
        match self.phase {
            Phase::Connecting => match ev {
                Event::Connected => (
                    ClientSession { phase: Phase::Handshaking, ..self },
                    seq![
                        ActionView::SendControl(
                            ClientControl::Hello(ClientHello { term_size: self.term_size }),
                        ),
                        ActionView::ReadControl,
                    ],
                ),
                Event::Failed(e) => self.finish(ClientExitReason::Error(ClientError::Connect(e))),
                _ => (self, seq![]),
            },
            Phase::Handshaking => match ev {
                Event::Reply(r) => self.on_reply(r),
                Event::Failed(e) => self.finish(ClientExitReason::Error(ClientError::Io(e))),
                _ => (self, seq![]),
            },
            Phase::Relaying => self.on_relay(ev),
            Phase::Finished => (self, seq![]),
        }
    }
}

/// Starts a client: the driver first opens the session's channels.
pub fn run_client(config: ClientConfig, backend: RelayBackend) -> (r: (ClientSession, Vec<Action>))
    ensures
        r.0 == ClientSession::initial(config.term_size, backend),
        views(r.1@) == seq![ActionView::Connect(config.socket_paths)],
{
    let session = ClientSession {
        phase: Phase::Connecting,
        backend,
        term_size: config.term_size,
        resize_pending: false,
        data_nonblocking: false,
        raw_mode: false,
    };
    let mut acts: Vec<Action> = Vec::new();
    push_action(&mut acts, Action::Connect(config.socket_paths));
    assert(views(acts@) =~= seq![ActionView::Connect(config.socket_paths)]);
    (session, acts)
}

/// Starts a client whose channels the caller has already opened: the hello
/// is sent and the reply awaited.
pub fn run_client_with_connection(config: ClientConfig, backend: RelayBackend) -> (r: (
    ClientSession,
    Vec<Action>,
))
    ensures
        (r.0, views(r.1@)) == ClientSession::initial(config.term_size, backend).next(
            Event::Connected,
        ),
{
    let (mut session, _) = run_client(config, backend);
    let acts = session.step(Event::Connected);
    (session, acts)
}

/// Starts the relay on a connection whose handshake the caller has already
/// performed: raw mode is entered, and the data channel made non-blocking
/// where the backend allows it at once.
pub fn run_client_relay(term_size: TermSize, backend: RelayBackend) -> (r: (
    ClientSession,
    Vec<Action>,
))
    ensures
        (r.0, views(r.1@)) == ClientSession::handshaken(term_size, backend).enter_relay(),
{
    let mut session = ClientSession {
        phase: Phase::Handshaking,
        backend,
        term_size,
        resize_pending: false,
        data_nonblocking: false,
        raw_mode: false,
    };
    let mut acts: Vec<Action> = Vec::new();
    assert(views(acts@) =~= Seq::<ActionView>::empty());
    session.enter_relay_into(&mut acts);
    assert(views(acts@) =~= ClientSession::handshaken(term_size, backend).enter_relay().1);
    (session, acts)
}

/// Appends `a` to `acts`.
fn push_action(acts: &mut Vec<Action>, a: Action)
    ensures
        views(final(acts)@) == views(old(acts)@).push(a@),
{
    acts.push(a);
    assert(views(acts@) =~= views(old(acts)@).push(a@));
}

/// Position of the first detach key in `input`, if any.
fn find_detach(input: &Vec<u8>) -> (r: Option<usize>)
    ensures
        match detach_index(input@) {
            None => r is None,
            Some(i) => r == Some(i as usize),
        },
{
    let mut i: usize = 0;
    while i < input.len()
        invariant
            i <= input@.len(),
            forall|j: int| 0 <= j < i ==> input@[j] != DETACH_KEY,
        decreases input@.len() - i,
    {
        if input[i] == DETACH_KEY {
            assert(is_first_detach(input@, i as int));
            let ghost k = choose|k: int| is_first_detach(input@, k);
            assert(k == i as int);
            return Some(i);
        }
        i += 1;
    }
    assert(!exists|k: int| is_first_detach(input@, k));
    None
}

impl ClientSession {
    /// Takes the terminal out of raw mode in the session's books. Returns
    /// whether the terminal was raw, that is whether the driver must restore
    /// it; a second call returns `false`.
    pub fn restore_terminal(&mut self) -> (restore: bool)
        ensures
            restore == old(self).raw_mode,
            *final(self) == old(self).restored(),
    {
        let restore = self.raw_mode;
        self.raw_mode = false;
        restore
    }

    fn finish_into(&mut self, reason: ClientExitReason, acts: &mut Vec<Action>)
        ensures
            *final(self) == old(self).finish(reason).0,
            views(final(acts)@) == views(old(acts)@) + old(self).finish(reason).1,
    {
        let ghost s0 = *self;
        if self.restore_terminal() {
            push_action(acts, Action::RestoreTerminal);
        }
        self.phase = Phase::Finished;
        push_action(acts, Action::Finish(reason));
        assert(views(acts@) =~= views(old(acts)@) + s0.finish(reason).1);
    }

    fn enter_relay_into(&mut self, acts: &mut Vec<Action>)
        ensures
            *final(self) == old(self).enter_relay().0,
            views(final(acts)@) == views(old(acts)@) + old(self).enter_relay().1,
    {
        let ghost s0 = *self;
        self.phase = Phase::Relaying;
        self.raw_mode = true;
        push_action(acts, Action::EnterRawMode);
        if self.backend == RelayBackend::Signal {
            self.data_nonblocking = true;
            push_action(acts, Action::SetDataNonblocking);
        }
        assert(views(acts@) =~= views(old(acts)@) + s0.enter_relay().1);
    }

    fn forward_into(bytes: Vec<u8>, acts: &mut Vec<Action>)
        ensures
            views(final(acts)@) == views(old(acts)@) + forward(bytes@),
    {
        let ghost b = bytes@;
        if bytes.len() > 0 {
            push_action(acts, Action::WriteData(bytes));
        }
        assert(views(acts@) =~= views(old(acts)@) + forward(b));
    }

    fn on_reply_into(&mut self, reply: Reply, acts: &mut Vec<Action>)
        ensures
            *final(self) == old(self).on_reply(reply).0,
            views(final(acts)@) == views(old(acts)@) + old(self).on_reply(reply).1,
    {
        match reply {
            Reply::Message(ServerControl::Hello(h)) => {
                if h.protocol_version == PROTOCOL_VERSION {
                    self.enter_relay_into(acts);
                } else {
                    let reason = ClientExitReason::VersionMismatch {
                        server_version: h.server_version,
                    };
                    self.finish_into(reason, acts);
                }
            },
            Reply::Message(ServerControl::VersionMismatch { server_version }) => {
                self.finish_into(ClientExitReason::VersionMismatch { server_version }, acts);
            },
            Reply::Message(ServerControl::Error { message }) => {
                self.finish_into(ClientExitReason::Error(ClientError::Server(message)), acts);
            },
            Reply::Message(ServerControl::Quit { .. }) => {
                self.finish_into(ClientExitReason::Error(ClientError::UnexpectedResponse), acts);
            },
            Reply::Closed => {
                self.finish_into(ClientExitReason::Error(ClientError::UnexpectedEof), acts);
            },
            Reply::Malformed(m) => {
                self.finish_into(ClientExitReason::Error(ClientError::Malformed(m)), acts);
            },
        }
    }

    fn on_relay_into(&mut self, ev: Event, acts: &mut Vec<Action>)
        requires
            old(self).phase == Phase::Relaying,
        ensures
            *final(self) == old(self).on_relay(ev).0,
            views(final(acts)@) == views(old(acts)@) + old(self).on_relay(ev).1,
    {
        let ghost s0 = *self;
        let ghost a0 = views(acts@);
        match ev {
            Event::Data(b) => {
                if !self.data_nonblocking {
                    push_action(acts, Action::SetDataNonblocking);
                }
                self.data_nonblocking = true;
                push_action(acts, Action::WriteOutput(b));
                assert(views(acts@) =~= a0 + s0.on_relay(ev).1);
            },
            Event::DataEof => {
                self.finish_into(ClientExitReason::ServerQuit, acts);
            },
            Event::Input(mut b) => {
                match find_detach(&b) {
                    None => {
                        Self::forward_into(b, acts);
                    },
                    Some(i) => {
                        let ghost whole = b@;
                        b.truncate(i);
                        assert(b@ =~= whole.take(i as int));
                        Self::forward_into(b, acts);
                        push_action(acts, Action::SendControl(ClientControl::Detach));
                        self.finish_into(ClientExitReason::Detached, acts);
                        assert(views(acts@) =~= a0 + s0.on_relay(ev).1);
                    },
                }
            },
            Event::ResizeSignal => {
                self.resize_pending = true;
                assert(views(acts@) =~= a0 + s0.on_relay(ev).1);
            },
            Event::Tick(size) => {
                if self.resize_pending || (self.backend == RelayBackend::Polling && size
                    != self.term_size) {
                    self.term_size = size;
                    self.resize_pending = false;
                    push_action(acts, Action::SendControl(ClientControl::Resize(size)));
                }
                assert(views(acts@) =~= a0 + s0.on_relay(ev).1);
            },
            Event::Idle => {
                push_action(acts, Action::Sleep);
                assert(views(acts@) =~= a0 + s0.on_relay(ev).1);
            },
            Event::Failed(e) => {
                self.finish_into(ClientExitReason::Error(ClientError::Io(e)), acts);
            },
            _ => {
                assert(views(acts@) =~= a0 + s0.on_relay(ev).1);
            },
        }
    }

    /// Takes one event and returns, in order, the actions the driver must
    /// perform.
    pub fn step(&mut self, ev: Event) -> (acts: Vec<Action>)
        ensures
            (*final(self), views(acts@)) == old(self).next(ev),
    {
        let mut acts: Vec<Action> = Vec::new();
        assert(views(acts@) =~= Seq::<ActionView>::empty());
        match self.phase {
            Phase::Connecting => match ev {
                Event::Connected => {
                    self.phase = Phase::Handshaking;
                    let hello = ClientHello::new(self.term_size);
                    push_action(&mut acts, Action::SendControl(ClientControl::Hello(hello)));
                    push_action(&mut acts, Action::ReadControl);
                },
                Event::Failed(e) => {
                    self.finish_into(ClientExitReason::Error(ClientError::Connect(e)), &mut acts);
                },
                _ => {},
            },
            Phase::Handshaking => match ev {
                Event::Reply(r) => {
                    self.on_reply_into(r, &mut acts);
                },
                Event::Failed(e) => {
                    self.finish_into(ClientExitReason::Error(ClientError::Io(e)), &mut acts);
                },
                _ => {},
            },
            Phase::Relaying => {
                self.on_relay_into(ev, &mut acts);
            },
            Phase::Finished => {},
        }
        let ghost v = views(acts@);
        assert(v =~= old(self).next(ev).1);
        acts
    }
}

} // verus!
