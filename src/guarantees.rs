//! What holds of every run of a client session.
use vstd::prelude::*;

use crate::exit::ClientExitReason;
use crate::protocol::{ClientControl, ClientHello, ServerControl, ServerHello, TermSize, PROTOCOL_VERSION};
use crate::session::{ActionView, ClientSession, Event, Phase, RelayBackend, Reply};

verus! {

/// The state and the actions after feeding `evs` to `s`, one by one.
pub open spec fn run(s: ClientSession, evs: Seq<Event>) -> (ClientSession, Seq<ActionView>)
    decreases evs.len(),
{
    if evs.len() == 0 {
        (s, seq![])
    } else {
        let (s1, a1) = s.next(evs[0]);
        let (s2, a2) = run(s1, evs.drop_first());
        (s2, a1 + a2)
    }
}

/// The action touches the data channel, or shows what was read from it.
pub open spec fn is_data_io(a: ActionView) -> bool {
    a is WriteData || a is WriteOutput || a is SetDataNonblocking
}

/// Number of times `acts` puts the terminal into raw mode.
pub open spec fn enters(acts: Seq<ActionView>) -> nat
    decreases acts.len(),
{
    if acts.len() == 0 {
        0
    } else {
        enters(acts.drop_last()) + if acts.last() is EnterRawMode { 1nat } else { 0 }
    }
}

/// Number of times `acts` restores the terminal.
pub open spec fn restores(acts: Seq<ActionView>) -> nat
    decreases acts.len(),
{
    if acts.len() == 0 {
        0
    } else {
        restores(acts.drop_last()) + if acts.last() is RestoreTerminal { 1nat } else { 0 }
    }
}

/// Number of exit reasons `acts` reports.
pub open spec fn finishes(acts: Seq<ActionView>) -> nat
    decreases acts.len(),
{
    if acts.len() == 0 {
        0
    } else {
        finishes(acts.drop_last()) + if acts.last() is Finish { 1nat } else { 0 }
    }
}

/// Every restore of the terminal comes right before an exit reason is reported.
pub open spec fn restore_precedes_finish(acts: Seq<ActionView>) -> bool {
    forall|i: int|
        0 <= i < acts.len() && (#[trigger] acts[i]) is RestoreTerminal ==> i + 1 < acts.len()
            && acts[i + 1] is Finish
}

/// Position of a phase in the order the session goes through them.
pub open spec fn rank(p: Phase) -> int {
    match p {
        Phase::Connecting => 0,
        Phase::Handshaking => 1,
        Phase::Relaying => 2,
        Phase::Finished => 3,
    }
}

proof fn lemma_counts_add(a: Seq<ActionView>, b: Seq<ActionView>)
    ensures
        enters(a + b) == enters(a) + enters(b),
        restores(a + b) == restores(a) + restores(b),
        finishes(a + b) == finishes(a) + finishes(b),
    decreases b.len(),
{
    if b.len() == 0 {
        assert(a + b =~= a);
    } else {
        lemma_counts_add(a, b.drop_last());
        assert((a + b).drop_last() =~= a + b.drop_last());
    }
}

proof fn lemma_counts_one(x: ActionView)
    ensures
        enters(seq![x]) == if x is EnterRawMode { 1nat } else { 0 },
        restores(seq![x]) == if x is RestoreTerminal { 1nat } else { 0 },
        finishes(seq![x]) == if x is Finish { 1nat } else { 0 },
{
    lemma_counts_empty();
    assert(seq![x].drop_last() =~= Seq::<ActionView>::empty());
}

proof fn lemma_counts_empty()
    ensures
        enters(Seq::<ActionView>::empty()) == 0,
        restores(Seq::<ActionView>::empty()) == 0,
        finishes(Seq::<ActionView>::empty()) == 0,
{
}

proof fn lemma_counts_two(x: ActionView, y: ActionView)
    ensures
        enters(seq![x, y]) == enters(seq![x]) + enters(seq![y]),
        restores(seq![x, y]) == restores(seq![x]) + restores(seq![y]),
        finishes(seq![x, y]) == finishes(seq![x]) + finishes(seq![y]),
{
    assert(seq![x, y] =~= seq![x] + seq![y]);
    lemma_counts_add(seq![x], seq![y]);
}

proof fn lemma_restore_precedes_finish_add(a: Seq<ActionView>, b: Seq<ActionView>)
    requires
        restore_precedes_finish(a),
        restore_precedes_finish(b),
    ensures
        restore_precedes_finish(a + b),
{
    assert forall|i: int|
        0 <= i < (a + b).len() && (#[trigger] (a + b)[i]) is RestoreTerminal implies i + 1 < (a
            + b).len() && (a + b)[i + 1] is Finish by {
        if i < a.len() {
            assert(a[i] is RestoreTerminal);
        } else {
            assert(b[i - a.len()] is RestoreTerminal);
        }
    }
}

/// What ending a session emits.
proof fn lemma_finish(s: ClientSession, reason: ClientExitReason)
    ensures
        ({
            let (s1, a) = s.finish(reason);
            &&& s1.phase == Phase::Finished
            &&& !s1.raw_mode
            &&& enters(a) == 0
            &&& restores(a) == if s.raw_mode { 1nat } else { 0 }
            &&& finishes(a) == 1
            &&& a.last() == ActionView::Finish(reason)
            &&& restore_precedes_finish(a)
            &&& forall|i: int| 0 <= i < a.len() ==> !is_data_io(#[trigger] a[i])
        }),
{
    let a = s.finish(reason).1;
    lemma_counts_one(ActionView::Finish(reason));
    if s.raw_mode {
        assert(a =~= seq![ActionView::RestoreTerminal, ActionView::Finish(reason)]);
        lemma_counts_one(ActionView::RestoreTerminal);
        lemma_counts_two(ActionView::RestoreTerminal, ActionView::Finish(reason));
    } else {
        assert(a =~= seq![ActionView::Finish(reason)]);
    }
}

/// What one step of a well-formed session does to the terminal, the phase
/// and the reported exit reasons.
proof fn lemma_step(s: ClientSession, e: Event)
    requires
        s.wf(),
    ensures
        ({
            let (s1, a) = s.next(e);
            &&& s1.wf()
            &&& rank(s.phase) <= rank(s1.phase)
            &&& enters(a) + (if s.raw_mode { 1nat } else { 0 }) == restores(a) + (if s1.raw_mode {
                1nat
            } else {
                0
            })
            &&& enters(a) == if s.phase != Phase::Relaying && s1.phase == Phase::Relaying {
                1nat
            } else {
                0
            }
            &&& finishes(a) == if s.phase != Phase::Finished && s1.phase == Phase::Finished {
                1nat
            } else {
                0
            }
            &&& restore_precedes_finish(a)
            &&& s.phase != Phase::Finished && s1.phase == Phase::Finished ==> a.len() > 0
                && a.last() is Finish
            &&& s.phase != Phase::Relaying && s1.phase != Phase::Relaying ==> forall|i: int|
                0 <= i < a.len() ==> !is_data_io(#[trigger] a[i])
        }),
{
    let (s1, a) = s.next(e);
    lemma_counts_one(ActionView::ReadControl);
    lemma_counts_one(ActionView::Sleep);
    lemma_counts_one(ActionView::EnterRawMode);
    lemma_counts_one(ActionView::SetDataNonblocking);
    lemma_counts_one(ActionView::SendControl(ClientControl::Detach));
    lemma_counts_empty();
    match s.phase {
        Phase::Connecting => match e {
            Event::Connected => {
                let h = ActionView::SendControl(
                    ClientControl::Hello(ClientHello { term_size: s.term_size }),
                );
                lemma_counts_one(h);
                lemma_counts_two(h, ActionView::ReadControl);
            },
            Event::Failed(err) => {
                lemma_finish(s, ClientExitReason::Error(crate::exit::ClientError::Connect(err)));
            },
            _ => {},
        },
        Phase::Handshaking => match e {
            Event::Reply(r) => {
                match r {
                    Reply::Message(ServerControl::Hello(h)) => {
                        if h.protocol_version == PROTOCOL_VERSION {
                            lemma_counts_two(ActionView::EnterRawMode, ActionView::SetDataNonblocking);
                        } else {
                            lemma_finish(s, ClientExitReason::VersionMismatch { server_version: h.server_version });
                        }
                    },
                    Reply::Message(ServerControl::VersionMismatch { server_version }) => {
                        lemma_finish(s, ClientExitReason::VersionMismatch { server_version });
                    },
                    Reply::Message(ServerControl::Error { message }) => {
                        lemma_finish(s, ClientExitReason::Error(crate::exit::ClientError::Server(message)));
                    },
                    Reply::Message(ServerControl::Quit { .. }) => {
                        lemma_finish(s, ClientExitReason::Error(crate::exit::ClientError::UnexpectedResponse));
                    },
                    Reply::Closed => {
                        lemma_finish(s, ClientExitReason::Error(crate::exit::ClientError::UnexpectedEof));
                    },
                    Reply::Malformed(m) => {
                        lemma_finish(s, ClientExitReason::Error(crate::exit::ClientError::Malformed(m)));
                    },
                }
            },
            Event::Failed(err) => {
                lemma_finish(s, ClientExitReason::Error(crate::exit::ClientError::Io(err)));
            },
            _ => {},
        },
        Phase::Relaying => match e {
            Event::Data(b) => {
                lemma_counts_one(ActionView::WriteOutput(b@));
                lemma_counts_two(ActionView::SetDataNonblocking, ActionView::WriteOutput(b@));
                if s.data_nonblocking {
                    assert(a =~= seq![ActionView::WriteOutput(b@)]);
                } else {
                    assert(a =~= seq![ActionView::SetDataNonblocking, ActionView::WriteOutput(b@)]);
                }
            },
            Event::DataEof => {
                lemma_finish(s, ClientExitReason::ServerQuit);
            },
            Event::Input(b) => {
                match crate::session::detach_index(b@) {
                    None => {
                        lemma_counts_one(ActionView::WriteData(b@));
                    },
                    Some(i) => {
                        let p = crate::session::forward(b@.take(i));
                        let d = seq![ActionView::SendControl(ClientControl::Detach)];
                        let f = s.finish(ClientExitReason::Detached).1;
                        lemma_finish(s, ClientExitReason::Detached);
                        lemma_counts_one(ActionView::WriteData(b@.take(i)));
                        lemma_counts_add(p, d);
                        lemma_counts_add(p + d, f);
                        lemma_restore_precedes_finish_add(p + d, f);
                        assert((p + d + f).last() == f.last());
                    },
                }
            },
            Event::Tick(size) => {
                lemma_counts_one(ActionView::SendControl(ClientControl::Resize(size)));
            },
            Event::Failed(err) => {
                lemma_finish(s, ClientExitReason::Error(crate::exit::ClientError::Io(err)));
            },
            _ => {},
        },
        Phase::Finished => {},
    }
}

proof fn lemma_run_finished(s: ClientSession, evs: Seq<Event>)
    requires
        s.phase == Phase::Finished,
    ensures
        run(s, evs) == (s, Seq::<ActionView>::empty()),
    decreases evs.len(),
{
    if evs.len() > 0 {
        lemma_run_finished(s, evs.drop_first());
        assert(Seq::<ActionView>::empty() + Seq::<ActionView>::empty() =~= Seq::<ActionView>::empty());
    }
}

proof fn lemma_run_unfold(s: ClientSession, e: Event, evs: Seq<Event>)
    ensures
        run(s, seq![e] + evs) == ({
            let (s1, a1) = s.next(e);
            let (s2, a2) = run(s1, evs);
            (s2, a1 + a2)
        }),
{
    let all = seq![e] + evs;
    assert(all[0] == e);
    assert(all.drop_first() =~= evs);
}

proof fn lemma_run(s: ClientSession, evs: Seq<Event>)
    requires
        s.wf(),
    ensures
        ({
            let (s2, acts) = run(s, evs);
            &&& s2.wf()
            &&& rank(s.phase) <= rank(s2.phase)
            &&& enters(acts) + (if s.raw_mode { 1nat } else { 0 }) == restores(acts) + (
            if s2.raw_mode {
                1nat
            } else {
                0
            })
            &&& enters(acts) <= if rank(s.phase) <= 1 { 1nat } else { 0 }
            &&& finishes(acts) == if s.phase != Phase::Finished && s2.phase == Phase::Finished {
                1nat
            } else {
                0
            }
            &&& s.phase != Phase::Finished && s2.phase == Phase::Finished ==> acts.len() > 0
                && acts.last() is Finish
            &&& restore_precedes_finish(acts)
        }),
    decreases evs.len(),
{
    lemma_counts_empty();
    if evs.len() > 0 {
        let (s1, a1) = s.next(evs[0]);
        lemma_step(s, evs[0]);
        lemma_run(s1, evs.drop_first());
        let (s2, a2) = run(s1, evs.drop_first());
        lemma_counts_add(a1, a2);
        lemma_restore_precedes_finish_add(a1, a2);
        if s1.phase == Phase::Finished {
            lemma_run_finished(s1, evs.drop_first());
            assert(a1 + a2 =~= a1);
        } else if finishes(a2) > 0 {
            assert(a2.len() > 0);
            assert((a1 + a2).last() == a2.last());
        }
    }
}

/// When the server answers the hello with a protocol version
/// other than the client's, the session reports the mismatch and does
/// nothing else, whatever happens afterwards. In particular no byte is read
/// from or written to the data channel, and the relay never starts.
pub proof fn version_mismatch_never_relays(s: ClientSession, hello: ServerHello, later: Seq<Event>)
    requires
        s.wf(),
        s.phase == Phase::Handshaking,
        hello.protocol_version != PROTOCOL_VERSION,
    ensures
        ({
            let (s2, acts) = run(
                s,
                seq![Event::Reply(Reply::Message(ServerControl::Hello(hello)))] + later,
            );
            &&& s2.phase == Phase::Finished
            &&& acts == seq![
                ActionView::Finish(
                    ClientExitReason::VersionMismatch { server_version: hello.server_version },
                ),
            ]
        }),
{
    let e = Event::Reply(Reply::Message(ServerControl::Hello(hello)));
    lemma_run_unfold(s, e, later);
    let (s1, a1) = s.next(e);
    lemma_run_finished(s1, later);
    assert(a1 + Seq::<ActionView>::empty() =~= a1);
    assert(a1 =~= seq![
        ActionView::Finish(
            ClientExitReason::VersionMismatch { server_version: hello.server_version },
        ),
    ]);
}

/// On a fresh session, the first control message the
/// client sends is the hello carrying its terminal size, and as long as no
/// control reply has arrived the client does no data-channel I/O and the
/// relay has not started.
pub proof fn hello_comes_first(size: TermSize, backend: RelayBackend, evs: Seq<Event>)
    ensures
        ({
            let (s2, acts) = run(ClientSession::initial(size, backend), evs);
            &&& forall|i: int|
                0 <= i < acts.len() && (#[trigger] acts[i]) is SendControl && (forall|j: int|
                    0 <= j < i ==> !(acts[j] is SendControl)) ==> acts[i] == ActionView::SendControl(
                    ClientControl::Hello(ClientHello { term_size: size }),
                )
            &&& (forall|k: int| 0 <= k < evs.len() ==> !(#[trigger] evs[k] is Reply)) ==> {
                &&& s2.phase != Phase::Relaying
                &&& forall|i: int| 0 <= i < acts.len() ==> !is_data_io(#[trigger] acts[i])
            }
        }),
    decreases evs.len(),
{
    let s0 = ClientSession::initial(size, backend);
    if (forall|k: int| 0 <= k < evs.len() ==> !(#[trigger] evs[k] is Reply)) {
        lemma_quiet_before_reply(s0, evs);
    }
    if evs.len() > 0 {
        let (s1, a1) = s0.next(evs[0]);
        let (s2, a2) = run(s1, evs.drop_first());
        let acts = a1 + a2;
        match evs[0] {
            Event::Connected => {
                assert(acts[0] is SendControl);
                assert forall|i: int|
                    0 <= i < acts.len() && (#[trigger] acts[i]) is SendControl && (forall|j: int|
                        0 <= j < i ==> !(acts[j] is SendControl)) implies acts[i]
                    == ActionView::SendControl(
                    ClientControl::Hello(ClientHello { term_size: size }),
                ) by {
                    if i > 0 {
                        assert(!(acts[0] is SendControl));
                    }
                }
            },
            Event::Failed(_) => {
                lemma_run_finished(s1, evs.drop_first());
                assert(acts =~= a1);
            },
            _ => {
                hello_comes_first(size, backend, evs.drop_first());
                assert(acts =~= a2);
            },
        }
    }
}

proof fn lemma_quiet_before_reply(s: ClientSession, evs: Seq<Event>)
    requires
        s.wf(),
        s.phase != Phase::Relaying,
        forall|k: int| 0 <= k < evs.len() ==> !(#[trigger] evs[k] is Reply),
    ensures
        ({
            let (s2, acts) = run(s, evs);
            &&& s2.phase != Phase::Relaying
            &&& forall|i: int| 0 <= i < acts.len() ==> !is_data_io(#[trigger] acts[i])
        }),
    decreases evs.len(),
{
    if evs.len() > 0 {
        let (s1, a1) = s.next(evs[0]);
        lemma_step(s, evs[0]);
        assert(!(evs[0] is Reply));
        assert(s1.phase != Phase::Relaying);
        let rest = evs.drop_first();
        assert forall|k: int| 0 <= k < rest.len() implies !(#[trigger] rest[k] is Reply) by {
            assert(rest[k] == evs[k + 1]);
        }
        lemma_quiet_before_reply(s1, rest);
        let (s2, a2) = run(s1, rest);
        assert forall|i: int| 0 <= i < (a1 + a2).len() implies !is_data_io(#[trigger] (a1 + a2)[i]) by {
            if i >= a1.len() {
                assert((a1 + a2)[i] == a2[i - a1.len()]);
            }
        }
    }
}

/// However many window-change signals arrive before the
/// relay next checks, exactly one resize is sent, carrying the size the
/// terminal has when the check happens; a further check sends nothing.
pub proof fn resize_signals_coalesce(s: ClientSession, n: nat, size: TermSize)
    requires
        s.wf(),
        s.phase == Phase::Relaying,
        n >= 1,
    ensures
        ({
            let evs = Seq::new(n, |i: int| Event::ResizeSignal) + seq![
                Event::Tick(size),
                Event::Tick(size),
            ];
            let (s2, acts) = run(s, evs);
            &&& acts == seq![ActionView::SendControl(ClientControl::Resize(size))]
            &&& s2.term_size == size
            &&& s2.phase == Phase::Relaying
        }),
{
    let ticks = seq![Event::Tick(size), Event::Tick(size)];
    let pending = ClientSession { resize_pending: true, ..s };
    lemma_signals(s, n, ticks);
    lemma_run_unfold(pending, Event::Tick(size), seq![Event::Tick(size)]);
    assert(ticks =~= seq![Event::Tick(size)] + seq![Event::Tick(size)]);
    let s1 = ClientSession { term_size: size, resize_pending: false, ..s };
    lemma_run_unfold(s1, Event::Tick(size), Seq::<Event>::empty());
    assert(seq![Event::Tick(size)] =~= seq![Event::Tick(size)] + Seq::<Event>::empty());
    let r = seq![ActionView::SendControl(ClientControl::Resize(size))];
    assert(r + (Seq::<ActionView>::empty() + Seq::<ActionView>::empty()) =~= r);
}

proof fn lemma_signals(s: ClientSession, n: nat, rest: Seq<Event>)
    requires
        s.phase == Phase::Relaying,
        n >= 1,
    ensures
        run(s, Seq::new(n, |i: int| Event::ResizeSignal) + rest) == run(
            ClientSession { resize_pending: true, ..s },
            rest,
        ),
    decreases n,
{
    let sig = Seq::new(n, |i: int| Event::ResizeSignal);
    let tail = Seq::new((n - 1) as nat, |i: int| Event::ResizeSignal);
    assert(sig + rest =~= seq![Event::ResizeSignal] + (tail + rest));
    lemma_run_unfold(s, Event::ResizeSignal, tail + rest);
    let pending = ClientSession { resize_pending: true, ..s };
    if n == 1 {
        assert(tail + rest =~= rest);
    } else {
        lemma_signals(pending, (n - 1) as nat, rest);
    }
    let a2 = run(pending, tail + rest).1;
    assert(Seq::<ActionView>::empty() + a2 =~= a2);
}

/// Over any run of a fresh session the terminal is put
/// into raw mode at most once and restored as often as it was entered, less
/// one while the relay still runs. So once the session has ended, raw mode has
/// been left exactly as many times as it was entered, and every restore comes
/// right before the exit reason is reported.
pub proof fn terminal_restored_once(size: TermSize, backend: RelayBackend, evs: Seq<Event>)
    ensures
        ({
            let (s2, acts) = run(ClientSession::initial(size, backend), evs);
            &&& enters(acts) <= 1
            &&& restores(acts) + (if s2.raw_mode { 1nat } else { 0 }) == enters(acts)
            &&& s2.raw_mode <==> s2.phase == Phase::Relaying
            &&& s2.phase == Phase::Finished ==> restores(acts) == enters(acts)
            &&& restore_precedes_finish(acts)
        }),
{
    lemma_run(ClientSession::initial(size, backend), evs);
}

/// Restoring the terminal a second time changes nothing and asks the driver
/// for nothing.
pub proof fn restore_is_idempotent(s: ClientSession)
    ensures
        !s.restored().raw_mode,
        s.restored().restored() == s.restored(),
{
}

/// A fresh session reports an exit reason
/// exactly once if it has ended and never otherwise, and the report is the
/// last thing it asks for.
pub proof fn exit_reported_once(size: TermSize, backend: RelayBackend, evs: Seq<Event>)
    ensures
        ({
            let (s2, acts) = run(ClientSession::initial(size, backend), evs);
            &&& finishes(acts) == if s2.phase == Phase::Finished { 1nat } else { 0 }
            &&& s2.phase == Phase::Finished ==> acts.len() > 0 && acts.last() is Finish
        }),
{
    lemma_run(ClientSession::initial(size, backend), evs);
}

/// The reply to the hello either starts the relay, with no
/// exit reported, or ends the session with exactly one report, which is a
/// version mismatch or an error.
pub proof fn handshake_is_classified(s: ClientSession, reply: Reply)
    requires
        s.wf(),
        s.phase == Phase::Handshaking,
    ensures
        ({
            let (s1, acts) = s.next(Event::Reply(reply));
            ||| s1.phase == Phase::Relaying && finishes(acts) == 0
            ||| s1.phase == Phase::Finished && acts.len() == 1 && acts[0] is Finish && (
            acts[0]->Finish_0 is VersionMismatch || acts[0]->Finish_0 is Error)
        }),
{
    lemma_step(s, Event::Reply(reply));
}

/// During the relay, each event either keeps the relay running,
/// with no exit reported, or ends it with exactly one report, the last
/// action, which is the server quitting, a detach or an error.
pub proof fn relay_end_is_classified(s: ClientSession, e: Event)
    requires
        s.wf(),
        s.phase == Phase::Relaying,
    ensures
        ({
            let (s1, acts) = s.next(e);
            ||| s1.phase == Phase::Relaying && finishes(acts) == 0
            ||| s1.phase == Phase::Finished && finishes(acts) == 1 && acts.len() > 0
                && acts.last() is Finish && (acts.last()->Finish_0 is ServerQuit
                || acts.last()->Finish_0 is Detached || acts.last()->Finish_0 is Error)
        }),
{
    lemma_step(s, e);
}

} // verus!
