use rustls::{ClientConfig, ClientConnection, RootCertStore};
use std::io::Read;
use std::sync::Arc;
use verdun::tls::engine::{
    advance, begin, observe, open_engine, plan_call, process, read_plain, write_plain,
    ConnectionError,
};
use verdun::tls::pump::{PumpAction, PumpFailure, PumpIntent, StepOutcome};
use verdun::tls::transport::{CallAction, CallStage};

fn config() -> Arc<ClientConfig> {
    let roots = RootCertStore { roots: webpki_roots::TLS_SERVER_ROOTS.into() };
    Arc::new(ClientConfig::builder().with_root_certificates(roots).with_no_client_auth())
}

fn engine() -> ClientConnection {
    open_engine(config(), "example.com").unwrap()
}

/// Runs a pump against a peer that takes what is written and sends `incoming`.
fn run(conn: &mut ClientConnection, intent: PumpIntent, mut incoming: &[u8]) -> (PumpAction, usize) {
    let mut sent: Vec<u8> = Vec::new();
    let (mut pump, mut action, _) = begin(intent, conn);
    let mut steps = 0;
    loop {
        let outcome = match action {
            PumpAction::Drain => StepOutcome::Moved(conn.write_tls(&mut sent).unwrap()),
            PumpAction::Flush => StepOutcome::Moved(0),
            PumpAction::Receive => StepOutcome::Moved(conn.read_tls(&mut incoming).unwrap()),
            PumpAction::Process => process(conn),
            PumpAction::Done(_, _) | PumpAction::Fail(_) => return (action, sent.len()),
        };
        action = advance(&mut pump, conn, outcome).0;
        steps += 1;
        assert!(steps < 100);
    }
}

#[test]
fn host_that_names_no_server_is_refused() {
    assert_eq!(open_engine(config(), "not a host name").unwrap_err(), ConnectionError::InvalidName);
    assert_eq!(open_engine(config(), "").unwrap_err(), ConnectionError::InvalidName);
    assert!(open_engine(config(), "www.rust-lang.org").is_ok());
    assert!(open_engine(config(), "192.0.2.1").is_ok());
}

#[test]
fn new_engine_is_handshaking_and_wants_to_write() {
    let conn = engine();
    let s = observe(&conn);
    assert!(s.handshaking);
    assert!(s.wants_write);
    assert!(!s.wants_read);
}

#[test]
fn peer_that_closes_at_once_aborts_the_handshake() {
    let mut conn = engine();
    let (action, sent) = run(&mut conn, PumpIntent::Read, b"");
    assert_eq!(action, PumpAction::Fail(PumpFailure::Aborted));
    assert!(sent > 0);
}

#[test]
fn peer_that_sends_garbage_is_a_protocol_failure() {
    let mut conn = engine();
    let (action, _) = run(&mut conn, PumpIntent::Read, b"HTTP/1.1 400 Bad Request\r\n\r\n");
    assert_eq!(action, PumpAction::Fail(PumpFailure::Protocol));
}

#[test]
fn write_pump_returns_after_the_first_flight() {
    let mut conn = engine();
    let (action, sent) = run(&mut conn, PumpIntent::Write, b"");
    assert_eq!(action, PumpAction::Done(0, sent));
    assert!(sent > 0);
    assert!(observe(&conn).handshaking);
}

#[test]
fn calls_on_a_new_engine_pump_first() {
    let conn = engine();
    let (stage, action, status) = plan_call(PumpIntent::Read, CallStage::Start, &conn, 0);
    assert!(status.handshaking);
    assert_eq!((stage, action), (CallStage::Handshaked, CallAction::Pump));
    let (stage, action, _) = plan_call(PumpIntent::Write, CallStage::Start, &conn, 0);
    assert_eq!((stage, action), (CallStage::Handshaked, CallAction::Pump));
}

#[test]
fn plaintext_is_taken_before_the_handshake_is_over() {
    let mut conn = engine();
    assert_eq!(write_plain(&mut conn, b"GET / HTTP/1.1\r\n\r\n").unwrap(), 18);
}

#[test]
fn reading_plaintext_from_a_closed_peer_is_a_read_of_nothing() {
    let mut conn = engine();
    let mut sent: Vec<u8> = Vec::new();
    conn.write_tls(&mut sent).unwrap();
    let mut nothing: &[u8] = b"";
    assert_eq!(conn.read_tls(&mut nothing).unwrap(), 0);
    let mut buf = [0u8; 16];
    assert_eq!(read_plain(&mut conn, &mut buf).unwrap(), 0);
    let mut raw = [0u8; 16];
    assert!(conn.reader().read(&mut raw).is_err());
}

#[test]
fn reading_plaintext_when_none_is_there_would_block() {
    let mut conn = engine();
    let mut buf = [0u8; 16];
    let e = read_plain(&mut conn, &mut buf).unwrap_err();
    assert_eq!(e.kind(), std::io::ErrorKind::WouldBlock);
}

#[test]
fn reading_into_an_empty_buffer_reads_nothing() {
    let mut conn = engine();
    let mut none: [u8; 0] = [];
    assert_eq!(read_plain(&mut conn, &mut none).unwrap(), 0);
    let mut some = [0u8; 4];
    assert!(read_plain(&mut conn, &mut some).is_err());
    assert_eq!(some, [0u8; 4]);
}
