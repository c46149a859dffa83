//! The pump that drives a TLS engine's demand for I/O. The pump decides; its
//! driver performs each action on the engine and the socket and reports the
//! outcome together with what the engine then demands.

use vstd::prelude::*;

verus! {

/// The call that a pump serves.
#[derive(Clone, Copy, Debug, PartialEq, Eq, Structural)]
pub enum PumpIntent {
    /// A read: the pump runs until the engine's demand is met.
    Read,
    /// A write: the pump returns as soon as it has written during a
    /// handshake, without waiting for the peer.
    Write,
}

/// What the engine demands at one moment.
#[derive(Clone, Copy, Debug, PartialEq, Eq, Structural)]
pub struct EngineStatus {
    pub handshaking: bool,
    pub wants_read: bool,
    pub wants_write: bool,
}

/// Why a pump failed.
#[derive(Clone, Copy, Debug, PartialEq, Eq, Structural)]
pub enum PumpFailure {
    /// An I/O call failed with an error other than an interruption.
    Io,
    /// The engine rejected what the peer sent.
    Protocol,
    /// The peer closed the connection in the middle of the handshake.
    Aborted,
}

/// What the driver does next, or how the pump ended.
#[derive(Clone, Copy, Debug, PartialEq, Eq, Structural)]
pub enum PumpAction {
    /// Move the engine's pending records to the socket.
    Drain,
    /// Flush the socket.
    Flush,
    /// Pull encrypted bytes from the socket into the engine.
    Receive,
    /// Let the engine process what it received.
    Process,
    /// The pump is over: the encrypted bytes read and written.
    Done(usize, usize),
    /// The pump failed.
    Fail(PumpFailure),
}

/// How the action that the pump asked for went.
#[derive(Clone, Copy, Debug, PartialEq, Eq, Structural)]
pub enum StepOutcome {
    /// It succeeded and moved this many bytes (for `Flush` and `Process`
    /// the number carries no meaning).
    Moved(usize),
    /// It was interrupted before it did anything.
    Interrupted,
    /// It failed.
    Failed,
}

/// The state of one pump.
#[derive(Clone, Copy, Debug, PartialEq, Eq, Structural)]
pub struct Pump {
    /// The call that the pump serves.
    pub intent: PumpIntent,
    /// Whether the engine was handshaking when the current round began.
    pub handshake: bool,
    /// Whether the peer has closed its side.
    pub eof: bool,
    /// Whether a drain moved nothing, so that the pump ends after the flush.
    pub closing: bool,
    /// Encrypted bytes read so far.
    pub read: usize,
    /// Encrypted bytes written so far.
    pub write: usize,
    /// The action that the driver was asked for last.
    pub pending: PumpAction,
}

/// The sum of two counts, held at the largest count where it does not fit.
pub open spec fn count_add(a: usize, b: usize) -> usize {
    if a + b > usize::MAX {
        usize::MAX
    } else {
        (a + b) as usize
    }
}

/// Whether an action ends the pump.
pub open spec fn is_terminal(a: PumpAction) -> bool {
    a is Done || a is Fail
}

/// The pump asks for `action`.
pub open spec fn ask(p: Pump, action: PumpAction) -> (Pump, PumpAction) {
    (Pump { pending: action, ..p }, action)
}

/// A round begins: nothing to do ends the pump; pending records are drained
/// first; otherwise the socket is flushed.
pub open spec fn round_start(p: Pump, status: EngineStatus) -> (Pump, PumpAction) {
    let q = Pump { handshake: status.handshaking, ..p };
    if !status.wants_write && !status.wants_read {
        ask(q, PumpAction::Done(q.read, q.write))
    } else if status.wants_write {
        ask(q, PumpAction::Drain)
    } else {
        ask(q, PumpAction::Flush)
    }
}

/// After the records are out: while the peer may still send and the engine
/// wants to read, pull; otherwise process what is there.
pub open spec fn pull_or_process(p: Pump, status: EngineStatus) -> (Pump, PumpAction) {
    if !p.eof && status.wants_read {
        ask(p, PumpAction::Receive)
    } else {
        ask(p, PumpAction::Process)
    }
}

/// Whether the pump ends once its records are flushed: a drain moved nothing,
/// or bytes were written and either the round began outside a handshake or
/// the pump serves a write.
pub open spec fn ends_after_flush(p: Pump) -> bool {
    p.closing || (p.write > 0 && (!p.handshake || p.intent == PumpIntent::Write))
}

/// A round ends once the engine has processed what was received.
pub open spec fn round_end(p: Pump, status: EngineStatus) -> (Pump, PumpAction) {
    if p.handshake && !status.handshaking && status.wants_write {
        round_start(p, status)
    } else if !p.handshake || !status.handshaking {
        ask(p, PumpAction::Done(p.read, p.write))
    } else if p.eof {
        ask(p, PumpAction::Fail(PumpFailure::Aborted))
    } else {
        round_start(p, status)
    }
}

/// The pump's first decision.
pub open spec fn pump_begin(intent: PumpIntent, status: EngineStatus) -> (Pump, PumpAction) {
    round_start(
        Pump {
            intent,
            handshake: status.handshaking,
            eof: false,
            closing: false,
            read: 0,
            write: 0,
            pending: PumpAction::Flush,
        },
        status,
    )
}

/// The pump's decision after the action it asked for last had `outcome` and
/// left the engine with the demand `status`.
pub open spec fn pump_next(p: Pump, status: EngineStatus, outcome: StepOutcome) -> (
    Pump,
    PumpAction,
) {
    match p.pending {
        PumpAction::Done(_, _) | PumpAction::Fail(_) => (p, p.pending),
        PumpAction::Drain => match outcome {
            StepOutcome::Failed => ask(p, PumpAction::Fail(PumpFailure::Io)),
            StepOutcome::Interrupted => ask(p, PumpAction::Drain),
            StepOutcome::Moved(n) => if n == 0 {
                ask(Pump { closing: true, ..p }, PumpAction::Flush)
            } else if status.wants_write {
                ask(Pump { write: count_add(p.write, n), ..p }, PumpAction::Drain)
            } else {
                ask(Pump { write: count_add(p.write, n), ..p }, PumpAction::Flush)
            },
        },
        PumpAction::Flush => match outcome {
            StepOutcome::Failed => ask(p, PumpAction::Fail(PumpFailure::Io)),
            StepOutcome::Interrupted => ask(p, PumpAction::Flush),
            StepOutcome::Moved(_) => if ends_after_flush(p) {
                ask(p, PumpAction::Done(p.read, p.write))
            } else {
                pull_or_process(p, status)
            },
        },
        PumpAction::Receive => match outcome {
            StepOutcome::Failed => ask(p, PumpAction::Fail(PumpFailure::Io)),
            StepOutcome::Interrupted => pull_or_process(p, status),
            StepOutcome::Moved(n) => if n == 0 {
                ask(Pump { eof: true, ..p }, PumpAction::Process)
            } else {
                ask(Pump { read: count_add(p.read, n), ..p }, PumpAction::Process)
            },
        },
        PumpAction::Process => match outcome {
            StepOutcome::Moved(_) => round_end(p, status),
            _ => ask(p, PumpAction::Fail(PumpFailure::Protocol)),
        },
    }
}

/// Adds two counts, holding the sum at the largest count.
fn add_counts(a: usize, b: usize) -> (r: usize)
    ensures
        r == count_add(a, b),
{
    if b > usize::MAX - a {
        usize::MAX
    } else {
        a + b
    }
}

impl Pump {
    fn ask(&mut self, action: PumpAction) -> (r: PumpAction)
        ensures
            (*final(self), r) == ask(*old(self), action),
    {
        self.pending = action;
        action
    }

    fn round_start(&mut self, status: EngineStatus) -> (r: PumpAction)
        ensures
            (*final(self), r) == round_start(*old(self), status),
    {
        self.handshake = status.handshaking;
        if !status.wants_write && !status.wants_read {
            self.ask(PumpAction::Done(self.read, self.write))
        } else if status.wants_write {
            self.ask(PumpAction::Drain)
        } else {
            self.ask(PumpAction::Flush)
        }
    }

    fn pull_or_process(&mut self, status: EngineStatus) -> (r: PumpAction)
        ensures
            (*final(self), r) == pull_or_process(*old(self), status),
    {
        if !self.eof && status.wants_read {
            self.ask(PumpAction::Receive)
        } else {
            self.ask(PumpAction::Process)
        }
    }

    fn round_end(&mut self, status: EngineStatus) -> (r: PumpAction)
        ensures
            (*final(self), r) == round_end(*old(self), status),
    {
        if self.handshake && !status.handshaking && status.wants_write {
            self.round_start(status)
        } else if !self.handshake || !status.handshaking {
            self.ask(PumpAction::Done(self.read, self.write))
        } else if self.eof {
            self.ask(PumpAction::Fail(PumpFailure::Aborted))
        } else {
            self.round_start(status)
        }
    }

    /// Starts a pump for a call, given what the engine demands, and says what
    /// to do first.
    pub fn begin(intent: PumpIntent, status: EngineStatus) -> (r: (Pump, PumpAction))
        ensures
            r == pump_begin(intent, status),
    {
        let mut p = Pump {
            intent,
            handshake: status.handshaking,
            eof: false,
            closing: false,
            read: 0,
            write: 0,
            pending: PumpAction::Flush,
        };
        let action = p.round_start(status);
        (p, action)
    }

    /// Takes the outcome of the action asked for last, with what the engine
    /// demands now, and says what to do next.
    pub fn step(&mut self, status: EngineStatus, outcome: StepOutcome) -> (r: PumpAction)
        ensures
            (*final(self), r) == pump_next(*old(self), status, outcome),
    {
        match self.pending {
            PumpAction::Done(_, _) | PumpAction::Fail(_) => self.pending,
            PumpAction::Drain => match outcome {
                StepOutcome::Failed => self.ask(PumpAction::Fail(PumpFailure::Io)),
                StepOutcome::Interrupted => self.ask(PumpAction::Drain),
                StepOutcome::Moved(n) => {
                    if n == 0 {
                        self.closing = true;
                        self.ask(PumpAction::Flush)
                    } else {
                        self.write = add_counts(self.write, n);
                        if status.wants_write {
                            self.ask(PumpAction::Drain)
                        } else {
                            self.ask(PumpAction::Flush)
                        }
                    }
                },
            },
            PumpAction::Flush => match outcome {
                StepOutcome::Failed => self.ask(PumpAction::Fail(PumpFailure::Io)),
                StepOutcome::Interrupted => self.ask(PumpAction::Flush),
                StepOutcome::Moved(_) => {
                    if self.closing || (self.write > 0 && (!self.handshake || self.intent
                        == PumpIntent::Write)) {
                        self.ask(PumpAction::Done(self.read, self.write))
                    } else {
                        self.pull_or_process(status)
                    }
                },
            },
            PumpAction::Receive => match outcome {
                StepOutcome::Failed => self.ask(PumpAction::Fail(PumpFailure::Io)),
                StepOutcome::Interrupted => self.pull_or_process(status),
                StepOutcome::Moved(n) => {
                    if n == 0 {
                        self.eof = true;
                    } else {
                        self.read = add_counts(self.read, n);
                    }
                    self.ask(PumpAction::Process)
                },
            },
            PumpAction::Process => match outcome {
                StepOutcome::Moved(_) => self.round_end(status),
                _ => self.ask(PumpAction::Fail(PumpFailure::Protocol)),
            },
        }
    }
}

/// Once the peer has closed its side, the pump never waits for it again.
pub proof fn lemma_no_receive_after_eof(p: Pump, status: EngineStatus, outcome: StepOutcome)
    requires
        p.eof,
        !(p.pending is Receive),
    ensures
        pump_next(p, status, outcome).0.eof,
        !(pump_next(p, status, outcome).1 is Receive),
{
}

/// A peer that closes its side when the pump waits for it leaves the pump
/// with one thing to do: let the engine process what is there.
pub proof fn lemma_eof_is_recorded(p: Pump, status: EngineStatus)
    requires
        p.pending is Receive,
    ensures
        pump_next(p, status, StepOutcome::Moved(0)).0.eof,
        pump_next(p, status, StepOutcome::Moved(0)).1 is Process,
{
}

/// A round that began in a handshake, saw the peer close its side, and ends
/// with the engine still handshaking, fails as aborted.
pub proof fn lemma_eof_in_handshake_aborts(p: Pump, status: EngineStatus, moved: usize)
    requires
        p.pending is Process,
        p.handshake,
        p.eof,
        status.handshaking,
    ensures
        pump_next(p, status, StepOutcome::Moved(moved)) == (
            Pump { pending: PumpAction::Fail(PumpFailure::Aborted), ..p },
            PumpAction::Fail(PumpFailure::Aborted),
        ),
{
}

/// A peer that closes its side while the pump waits for it in a handshake
/// makes the pump fail as aborted two steps later, if the engine is still
/// handshaking then: the pump does not wait again.
pub proof fn lemma_silent_peer_aborts(
    p: Pump,
    at_close: EngineStatus,
    after: EngineStatus,
    moved: usize,
)
    requires
        p.pending is Receive,
        p.handshake,
        after.handshaking,
    ensures
        ({
            let closed = pump_next(p, at_close, StepOutcome::Moved(0));
            let ended = pump_next(closed.0, after, StepOutcome::Moved(moved));
            &&& closed.1 is Process
            &&& ended.1 == PumpAction::Fail(PumpFailure::Aborted)
        }),
{
}

/// After the peer has closed its side, the end of a round ends the pump,
/// unless the handshake has just finished with records left to write; the
/// round that then follows begins outside a handshake, and its end ends the
/// pump whatever the engine demands.
pub proof fn lemma_rounds_after_eof(p: Pump, status: EngineStatus, moved: usize)
    requires
        p.pending is Process,
        p.eof,
    ensures
        ({
            let next = pump_next(p, status, StepOutcome::Moved(moved));
            is_terminal(next.1) || (p.handshake && !next.0.handshake && next.0.eof)
        }),
        !p.handshake ==> pump_next(p, status, StepOutcome::Moved(moved)).1 == PumpAction::Done(
            p.read,
            p.write,
        ),
{
}

/// A pump that has ended stays ended, with the same result.
pub proof fn lemma_terminal_is_stable(p: Pump, status: EngineStatus, outcome: StepOutcome)
    requires
        is_terminal(p.pending),
    ensures
        pump_next(p, status, outcome) == (p, p.pending),
{
}

/// The counts of a pump never shrink, and what it reports when it is done
/// are its counts.
pub proof fn lemma_counts_grow(p: Pump, status: EngineStatus, outcome: StepOutcome)
    ensures
        ({
            let next = pump_next(p, status, outcome);
            &&& p.read <= next.0.read
            &&& p.write <= next.0.write
            &&& (!is_terminal(p.pending) && next.1 is Done ==> next.1 == PumpAction::Done(
                next.0.read,
                next.0.write,
            ))
        }),
{
}

} // verus!
