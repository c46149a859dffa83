use verdun::tls::pump::{EngineStatus, PumpFailure, PumpIntent};
use verdun::tls::transport::{
    delivered, failure_kind, gather, next_call_action, CallAction, CallStage, Gathered,
    IoErrorKind,
};

fn status(handshaking: bool, wants_read: bool, wants_write: bool) -> EngineStatus {
    EngineStatus { handshaking, wants_read, wants_write }
}

#[test]
fn read_pumps_for_handshake_then_records_then_peer() {
    let r = PumpIntent::Read;
    assert_eq!(
        next_call_action(r, CallStage::Start, status(true, false, true), 0),
        (CallStage::Handshaked, CallAction::Pump)
    );
    assert_eq!(
        next_call_action(r, CallStage::Handshaked, status(false, true, true), 0),
        (CallStage::Flushed, CallAction::Pump)
    );
    assert_eq!(
        next_call_action(r, CallStage::Flushed, status(false, true, false), 0),
        (CallStage::Pulled, CallAction::Pump)
    );
    assert_eq!(
        next_call_action(r, CallStage::Pulled, status(false, true, false), 120),
        (CallStage::Pulled, CallAction::Pump)
    );
    assert_eq!(
        next_call_action(r, CallStage::Pulled, status(false, false, false), 120),
        (CallStage::Pulled, CallAction::Transfer)
    );
}

#[test]
fn read_stops_pulling_when_a_pump_read_nothing() {
    assert_eq!(
        next_call_action(PumpIntent::Read, CallStage::Pulled, status(false, true, false), 0),
        (CallStage::Pulled, CallAction::Transfer)
    );
}

#[test]
fn read_with_nothing_to_pump_transfers_at_once() {
    assert_eq!(
        next_call_action(PumpIntent::Read, CallStage::Start, status(false, false, false), 0),
        (CallStage::Flushed, CallAction::Transfer)
    );
}

#[test]
fn write_never_waits_for_the_peer() {
    let w = PumpIntent::Write;
    assert_eq!(
        next_call_action(w, CallStage::Start, status(true, true, false), 0),
        (CallStage::Handshaked, CallAction::Pump)
    );
    assert_eq!(
        next_call_action(w, CallStage::Handshaked, status(true, true, false), 0),
        (CallStage::Flushed, CallAction::Transfer)
    );
    assert_eq!(
        next_call_action(w, CallStage::Start, status(false, true, true), 0),
        (CallStage::Flushed, CallAction::Pump)
    );
    assert_eq!(
        next_call_action(w, CallStage::Flushed, status(false, true, true), 0),
        (CallStage::Flushed, CallAction::Transfer)
    );
}

#[test]
fn unexpected_eof_is_a_read_of_nothing() {
    assert_eq!(delivered(Ok(17)), Ok(17));
    assert_eq!(delivered(Err(IoErrorKind::UnexpectedEof)), Ok(0));
    assert_eq!(delivered(Err(IoErrorKind::WouldBlock)), Err(IoErrorKind::WouldBlock));
    assert_eq!(delivered(Err(IoErrorKind::Other)), Err(IoErrorKind::Other));
}

#[test]
fn failures_have_their_kinds() {
    assert_eq!(failure_kind(PumpFailure::Aborted), IoErrorKind::ConnectionAborted);
    assert_eq!(failure_kind(PumpFailure::Protocol), IoErrorKind::InvalidData);
    assert_eq!(failure_kind(PumpFailure::Io), IoErrorKind::Other);
}

#[test]
fn gather_appends_partial_reads_and_goes_on() {
    let mut buf = b"HTTP".to_vec();
    assert_eq!(gather(&mut buf, Ok(b"/1.1 ")), Gathered::Continue);
    assert_eq!(gather(&mut buf, Ok(b"2")), Gathered::Continue);
    assert_eq!(buf, b"HTTP/1.1 2".to_vec());
}

#[test]
fn gather_stops_at_the_end_and_where_a_read_would_block() {
    let mut buf = b"abc".to_vec();
    assert_eq!(gather(&mut buf, Ok(b"")), Gathered::Stop);
    assert_eq!(gather(&mut buf, Err(IoErrorKind::WouldBlock)), Gathered::Stop);
    assert_eq!(buf, b"abc".to_vec());
}

#[test]
fn gather_fails_on_other_errors() {
    let mut buf = Vec::new();
    assert_eq!(
        gather(&mut buf, Err(IoErrorKind::ConnectionAborted)),
        Gathered::Fail(IoErrorKind::ConnectionAborted)
    );
    assert_eq!(
        gather(&mut buf, Err(IoErrorKind::Interrupted)),
        Gathered::Fail(IoErrorKind::Interrupted)
    );
    assert!(buf.is_empty());
}
