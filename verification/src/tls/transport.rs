//! What a read or a write on the transport does around its pumps, and how
//! the bytes of a whole response are gathered.

use crate::https::wire::push_bytes;
use crate::tls::pump::{EngineStatus, PumpFailure, PumpIntent};
use vstd::prelude::*;

verus! {

/// The kinds of I/O error that the transport tells apart.
#[derive(Clone, Copy, Debug, PartialEq, Eq, Structural)]
pub enum IoErrorKind {
    Interrupted,
    WouldBlock,
    UnexpectedEof,
    ConnectionAborted,
    InvalidData,
    Other,
}

/// How far a read or a write has come.
#[derive(Clone, Copy, Debug, PartialEq, Eq, Structural)]
pub enum CallStage {
    /// Nothing was done yet.
    Start,
    /// The pump for a handshake in progress has run, or was not needed.
    Handshaked,
    /// The pump for pending records has run, or was not needed.
    Flushed,
    /// A pump that waits for the peer has run.
    Pulled,
}

/// What a read or a write does next.
#[derive(Clone, Copy, Debug, PartialEq, Eq, Structural)]
pub enum CallAction {
    /// Run a pump.
    Pump,
    /// Move the application's bytes: the call is over after that.
    Transfer,
}

/// The decision of a call while it waits for the peer: a read pumps again as
/// long as the engine wants to read and the last such pump read something.
pub open spec fn call_after_flush(
    intent: PumpIntent,
    stage: CallStage,
    status: EngineStatus,
    pulled: usize,
) -> (CallStage, CallAction) {
    if intent == PumpIntent::Read && status.wants_read && (stage != CallStage::Pulled || pulled
        > 0) {
        (CallStage::Pulled, CallAction::Pump)
    } else {
        (stage, CallAction::Transfer)
    }
}

/// The next stage and action of a call: one pump while the engine handshakes,
/// one while it has records to write, then, for a read, pumps that wait for
/// the peer; `pulled` is what the last pump read.
pub open spec fn call_next(
    intent: PumpIntent,
    stage: CallStage,
    status: EngineStatus,
    pulled: usize,
) -> (CallStage, CallAction) {
    if stage == CallStage::Start && status.handshaking {
        (CallStage::Handshaked, CallAction::Pump)
    } else if (stage == CallStage::Start || stage == CallStage::Handshaked) && status.wants_write {
        (CallStage::Flushed, CallAction::Pump)
    } else if stage == CallStage::Pulled {
        call_after_flush(intent, stage, status, pulled)
    } else {
        call_after_flush(intent, CallStage::Flushed, status, pulled)
    }
}

/// Decides what a read or a write does next.
pub fn next_call_action(
    intent: PumpIntent,
    stage: CallStage,
    status: EngineStatus,
    pulled: usize,
) -> (r: (CallStage, CallAction))
    ensures
        r == call_next(intent, stage, status, pulled),
{
    if stage == CallStage::Start && status.handshaking {
        return (CallStage::Handshaked, CallAction::Pump);
    }
    if (stage == CallStage::Start || stage == CallStage::Handshaked) && status.wants_write {
        return (CallStage::Flushed, CallAction::Pump);
    }
    let at: CallStage = if stage == CallStage::Pulled {
        CallStage::Pulled
    } else {
        CallStage::Flushed
    };
    if intent == PumpIntent::Read && status.wants_read && (at != CallStage::Pulled || pulled > 0) {
        (CallStage::Pulled, CallAction::Pump)
    } else {
        (at, CallAction::Transfer)
    }
}

/// The error kind under which a failed pump is reported; an I/O failure is
/// reported as the error that caused it, which the pump does not hold.
pub open spec fn failure_kind_of(failure: PumpFailure) -> IoErrorKind {
    match failure {
        PumpFailure::Io => IoErrorKind::Other,
        PumpFailure::Protocol => IoErrorKind::InvalidData,
        PumpFailure::Aborted => IoErrorKind::ConnectionAborted,
    }
}

/// Names the error kind for a failed pump.
pub fn failure_kind(failure: PumpFailure) -> (r: IoErrorKind)
    ensures
        r == failure_kind_of(failure),
{
    match failure {
        PumpFailure::Io => IoErrorKind::Other,
        PumpFailure::Protocol => IoErrorKind::InvalidData,
        PumpFailure::Aborted => IoErrorKind::ConnectionAborted,
    }
}

/// What a read hands to its caller, given what the engine's plaintext
/// reader returned: the end of the data is a read of no bytes, not an error.
pub open spec fn delivered_of(outcome: Result<usize, IoErrorKind>) -> Result<usize, IoErrorKind> {
    match outcome {
        Ok(n) => Ok(n),
        Err(IoErrorKind::UnexpectedEof) => Ok(0),
        Err(e) => Err(e),
    }
}

/// Turns what the engine's plaintext reader returned into the result of a
/// read.
pub fn delivered(outcome: Result<usize, IoErrorKind>) -> (r: Result<usize, IoErrorKind>)
    ensures
        r == delivered_of(outcome),
{
    match outcome {
        Ok(n) => Ok(n),
        Err(IoErrorKind::UnexpectedEof) => Ok(0),
        Err(e) => Err(e),
    }
}

/// Whether reading to the end goes on after one read.
#[derive(Clone, Copy, Debug, PartialEq, Eq, Structural)]
pub enum Gathered {
    /// Bytes were taken: read again.
    Continue,
    /// The data has ended, or none is there without waiting.
    Stop,
    /// The read failed.
    Fail(IoErrorKind),
}

/// The verdict on one read while reading to the end.
pub open spec fn gathered_of(outcome: Result<Seq<u8>, IoErrorKind>) -> Gathered {
    match outcome {
        Ok(chunk) => if chunk.len() == 0 {
            Gathered::Stop
        } else {
            Gathered::Continue
        },
        Err(IoErrorKind::WouldBlock) => Gathered::Stop,
        Err(e) => Gathered::Fail(e),
    }
}

/// What was gathered after one more read.
pub open spec fn gathered_bytes(have: Seq<u8>, outcome: Result<Seq<u8>, IoErrorKind>) -> Seq<u8> {
    match outcome {
        Ok(chunk) => have + chunk,
        Err(_) => have,
    }
}

/// The view of what one read returned.
pub open spec fn outcome_view(outcome: Result<&[u8], IoErrorKind>) -> Result<Seq<u8>, IoErrorKind> {
    match outcome {
        Ok(chunk) => Ok(chunk@),
        Err(e) => Err(e),
    }
}

/// Takes the outcome of one read while reading to the end: the bytes read are
/// appended to `buf`, a partial read goes on, and the reading stops at the
/// end of the data or where a read would block.
pub fn gather(buf: &mut Vec<u8>, outcome: Result<&[u8], IoErrorKind>) -> (r: Gathered)
    ensures
        r == gathered_of(outcome_view(outcome)),
        final(buf)@ == gathered_bytes(old(buf)@, outcome_view(outcome)),
{
    match outcome {
        Ok(chunk) => {
            let n: usize = chunk.len();
            push_bytes(buf, chunk);
            if n == 0 {
                Gathered::Stop
            } else {
                Gathered::Continue
            }
        },
        Err(IoErrorKind::WouldBlock) => Gathered::Stop,
        Err(e) => Gathered::Fail(e),
    }
}

} // verus!
