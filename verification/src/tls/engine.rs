//! The TLS engine, `rustls::ClientConnection`, as the pump sees it: what it
//! demands, how it is made, and how it processes what was received.

use crate::tls::pump::{pump_begin, pump_next, EngineStatus, Pump, PumpAction, PumpIntent, StepOutcome};
use crate::tls::transport::{
    call_next, delivered, next_call_action, CallAction, CallStage, IoErrorKind,
};
use rustls::pki_types::ServerName;
use rustls::{ClientConfig, ClientConnection};
use std::io::{ErrorKind, Read, Write};
use std::sync::Arc;
use vstd::prelude::*;

verus! {

/// The TLS engine of a client, held as an opaque value.
#[verifier::external_type_specification]
#[verifier::external_body]
pub struct ExClientConnection(ClientConnection);

/// The configuration that an engine is made with, held as an opaque value.
#[verifier::external_type_specification]
#[verifier::external_body]
pub struct ExClientConfig(ClientConfig);

/// The name by which a server is verified, held as an opaque value.
#[verifier::external_type_specification]
#[verifier::external_body]
pub struct ExServerName<'a>(ServerName<'a>);

/// The error of the engine, held as an opaque value.
#[verifier::external_type_specification]
#[verifier::external_body]
pub struct ExEngineError(rustls::Error);

/// The error of an I/O call, held as an opaque value.
#[verifier::external_type_specification]
#[verifier::external_body]
pub struct ExIoError(std::io::Error);

/// Whether a text names a server: whether it is a DNS name or an IP address
/// as `rustls::pki_types::ServerName` reads them.
pub uninterp spec fn names_server(host: Seq<char>) -> bool;

/// Reads a host name with `ServerName::try_from` on an owned copy of the
/// text. The contract names whether that succeeds, which depends on the text
/// alone.
#[verifier::external_body]
fn server_name(host: &str) -> (r: Option<ServerName<'static>>)
    ensures
        r is Some <==> names_server(host@),
{
    ServerName::try_from(host.to_string()).ok()
}

/// Makes an engine with `ClientConnection::new`. Nothing is stated of the
/// outcome, which depends on the configuration.
#[verifier::external_body]
fn new_connection(config: Arc<ClientConfig>, name: ServerName<'static>) -> (r: Result<
    ClientConnection,
    rustls::Error,
>) {
    ClientConnection::new(config, name)
}

/// Asks `is_handshaking` of the engine. Nothing is stated of the answer,
/// which depends on what the engine has sent and received.
#[verifier::external_body]
fn engine_is_handshaking(conn: &ClientConnection) -> (r: bool) {
    conn.is_handshaking()
}

/// Asks `wants_read` of the engine. Nothing is stated of the answer.
#[verifier::external_body]
fn engine_wants_read(conn: &ClientConnection) -> (r: bool) {
    conn.wants_read()
}

/// Asks `wants_write` of the engine. Nothing is stated of the answer.
#[verifier::external_body]
fn engine_wants_write(conn: &ClientConnection) -> (r: bool) {
    conn.wants_write()
}

/// Calls `process_new_packets` on the engine and drops the state summary
/// that comes with success. Nothing is stated of the outcome, which depends
/// on what the peer sent.
#[verifier::external_body]
fn engine_process(conn: &mut ClientConnection) -> (r: Result<(), rustls::Error>) {
    conn.process_new_packets().map(|_| ())
}

/// Why no engine could be made.
#[derive(Clone, Copy, Debug, PartialEq, Eq, Structural)]
pub enum ConnectionError {
    /// The host is neither a DNS name nor an IP address.
    InvalidName,
    /// The engine refused the configuration.
    Rejected,
}

/// Makes the engine for a connection to `host`. It fails with `InvalidName`
/// exactly for a host that names no server.
pub fn open_engine(config: Arc<ClientConfig>, host: &str) -> (r: Result<
    ClientConnection,
    ConnectionError,
>)
    ensures
        !names_server(host@) <==> r is Err && r->Err_0 == ConnectionError::InvalidName,
{
    let name = match server_name(host) {
        None => {
            return Err(ConnectionError::InvalidName);
        },
        Some(n) => n,
    };
    engine_made(new_connection(config, name))
}

/// What making an engine gave: the engine, or `Rejected`.
pub open spec fn engine_made_of(made: Result<ClientConnection, rustls::Error>) -> Result<
    ClientConnection,
    ConnectionError,
> {
    match made {
        Ok(conn) => Ok(conn),
        Err(_) => Err(ConnectionError::Rejected),
    }
}

/// Turns the outcome of making an engine into the result of opening one.
pub fn engine_made(made: Result<ClientConnection, rustls::Error>) -> (r: Result<
    ClientConnection,
    ConnectionError,
>)
    ensures
        r == engine_made_of(made),
{
    match made {
        Ok(conn) => Ok(conn),
        Err(_) => Err(ConnectionError::Rejected),
    }
}

/// What the engine demands now.
pub fn observe(conn: &ClientConnection) -> (r: EngineStatus) {
    EngineStatus {
        handshaking: engine_is_handshaking(conn),
        wants_read: engine_wants_read(conn),
        wants_write: engine_wants_write(conn),
    }
}

/// What processing gave, as the outcome of a pump's action.
pub open spec fn processed_of(given: Result<(), rustls::Error>) -> StepOutcome {
    match given {
        Ok(_) => StepOutcome::Moved(0),
        Err(_) => StepOutcome::Failed,
    }
}

/// Turns what processing gave into the outcome of a pump's action.
pub fn processed(given: Result<(), rustls::Error>) -> (r: StepOutcome)
    ensures
        r == processed_of(given),
{
    match given {
        Ok(_) => StepOutcome::Moved(0),
        Err(_) => StepOutcome::Failed,
    }
}

/// Lets the engine process what it received: the outcome is that nothing
/// moved, or a failure.
pub fn process(conn: &mut ClientConnection) -> (r: StepOutcome)
    ensures
        r == StepOutcome::Moved(0) || r == StepOutcome::Failed,
{
    processed(engine_process(conn))
}

/// Starts a pump on an engine: the pump, its first action, and the demand
/// that decided it.
pub fn begin(intent: PumpIntent, conn: &ClientConnection) -> (r: (Pump, PumpAction, EngineStatus))
    ensures
        (r.0, r.1) == pump_begin(intent, r.2),
{
    let status = observe(conn);
    let started = Pump::begin(intent, status);
    (started.0, started.1, status)
}

/// Reports the outcome of a pump's action, and gets the next action together
/// with the engine's demand that decided it.
pub fn advance(pump: &mut Pump, conn: &ClientConnection, outcome: StepOutcome) -> (r: (
    PumpAction,
    EngineStatus,
))
    ensures
        (*final(pump), r.0) == pump_next(*old(pump), r.1, outcome),
{
    let status = observe(conn);
    let action = pump.step(status, outcome);
    (action, status)
}

/// Decides what a read or a write on an engine does next, together with the
/// engine's demand that decided it.
pub fn plan_call(intent: PumpIntent, stage: CallStage, conn: &ClientConnection, pulled: usize) -> (r:
    (CallStage, CallAction, EngineStatus))
    ensures
        (r.0, r.1) == call_next(intent, stage, r.2, pulled),
{
    let status = observe(conn);
    let next = next_call_action(intent, stage, status, pulled);
    (next.0, next.1, status)
}

/// Reads decrypted bytes with `read` on the engine's `reader()`. As every
/// `std::io::Read` does, it fills a prefix of `buf` and returns its length.
/// With an empty `buf` it reads no bytes and succeeds, whatever the engine
/// holds: it returns before it looks at how the connection stands.
#[verifier::external_body]
fn engine_read_plain(conn: &mut ClientConnection, buf: &mut [u8]) -> (r: Result<usize, std::io::Error>)
    ensures
        final(buf)@.len() == old(buf)@.len(),
        r matches Ok(n) ==> n <= old(buf)@.len(),
        old(buf)@.len() == 0 ==> r is Ok,
{
    conn.reader().read(buf)
}

/// Hands bytes to the engine with `write` on its `writer()`, which takes a
/// prefix of `data` and returns its length.
#[verifier::external_body]
fn engine_write_plain(conn: &mut ClientConnection, data: &[u8]) -> (r: Result<
    usize,
    std::io::Error,
>)
    ensures
        r matches Ok(n) ==> n <= data@.len(),
{
    conn.writer().write(data)
}

/// Calls `flush` on the engine's `writer()`. Nothing is stated of the
/// outcome.
#[verifier::external_body]
fn engine_flush_plain(conn: &mut ClientConnection) -> (r: Result<(), std::io::Error>) {
    conn.writer().flush()
}

/// Names the kind of an I/O error, read with `std::io::Error::kind`. Nothing
/// is stated of the answer.
#[verifier::external_body]
fn io_error_kind(e: &std::io::Error) -> (r: IoErrorKind) {
    match e.kind() {
        ErrorKind::Interrupted => IoErrorKind::Interrupted,
        ErrorKind::WouldBlock => IoErrorKind::WouldBlock,
        ErrorKind::UnexpectedEof => IoErrorKind::UnexpectedEof,
        ErrorKind::ConnectionAborted => IoErrorKind::ConnectionAborted,
        ErrorKind::InvalidData => IoErrorKind::InvalidData,
        _ => IoErrorKind::Other,
    }
}

/// Takes decrypted bytes out of the engine into `buf` and returns how many.
/// A peer that closed without notice gives a read of no bytes, not an error;
/// a read into an empty `buf` always succeeds, with no bytes.
pub fn read_plain(conn: &mut ClientConnection, buf: &mut [u8]) -> (r: Result<usize, std::io::Error>)
    ensures
        final(buf)@.len() == old(buf)@.len(),
        r matches Ok(n) ==> n <= old(buf)@.len(),
        old(buf)@.len() == 0 ==> (r matches Ok(n) && n == 0),
{
    // What the engine hands out is passed on; of its errors only the kind
    // decides, through `delivered`.
    match engine_read_plain(conn, buf) {
        Ok(n) => Ok(n),
        Err(e) => match delivered(Err(io_error_kind(&e))) {
            Ok(_) => Ok(0),
            Err(_) => Err(e),
        },
    }
}

/// Hands `data` to the engine for sending and makes it form its records.
/// Returns how many bytes the engine took.
pub fn write_plain(conn: &mut ClientConnection, data: &[u8]) -> (r: Result<usize, std::io::Error>)
    ensures
        r matches Ok(n) ==> n <= data@.len(),
{
    let taken = match engine_write_plain(conn, data) {
        Ok(n) => n,
        Err(e) => {
            return Err(e);
        },
    };
    match engine_flush_plain(conn) {
        Ok(_) => Ok(taken),
        Err(e) => Err(e),
    }
}

} // verus!
