//! The response decoder: raw response bytes to a status code, a header
//! collection and a body, with fixed-length and chunked body framing.

use crate::https::buffer::{bytes_contents, bytes_mut_contents};
use crate::https::headers::{lookup, upsert, Entries, HeaderMap};
use crate::https::number::{parse_decimal, parse_hex, parse_unsigned};
use crate::https::text::{lemma_text_of_bytes, utf8_text};
use crate::https::wire::{find_crlf, find_pair, find_pair_from, pair_at, COLON, CR, LF, SPACE};
use bytes::{Bytes, BytesMut};
use vstd::prelude::*;
use vstd::slice::slice_subrange;
use vstd::string::StringSliceAdditionalSpecFns;
use vstd::utf8::{decode_utf8, encode_utf8, valid_utf8};

verus! {

/// Why a response could not be decoded.
#[derive(Clone, Copy, Debug, PartialEq, Eq, Structural)]
pub enum HttpResponseError {
    /// The input holds no bytes.
    Empty,
    /// The status line is not terminated, or too short to hold a status code.
    InvalidStatusLine,
    /// The header block ends before its blank line.
    NoHeaders,
    /// A header line holds no separator between name and value.
    InvalidHeader,
    /// A status code, a `Content-Length` or a chunk size is not a number that
    /// fits, or names more bytes than the input holds.
    NumberParse,
    /// Bytes that should be text are not valid UTF-8.
    TextDecode,
    /// A `Transfer-Encoding` other than `chunked`.
    UnsupportedEncoding,
}

/// What an error says to a reader.
pub open spec fn message_of(e: HttpResponseError) -> Seq<char> {
    match e {
        HttpResponseError::Empty => "the given byte slice was empty"@,
        HttpResponseError::InvalidStatusLine => "the status line is invalid"@,
        HttpResponseError::NoHeaders => "no headers were found"@,
        HttpResponseError::InvalidHeader => "invalid header"@,
        HttpResponseError::NumberParse => "there was a error during parsing a number"@,
        HttpResponseError::TextDecode => "there was an error with parsing a string"@,
        HttpResponseError::UnsupportedEncoding => "the transfer encoding is not supported"@,
    }
}

impl HttpResponseError {
    /// What the error says to a reader.
    pub fn message(&self) -> (r: &'static str)
        ensures
            r@ == message_of(*self),
    {
        match self {
            HttpResponseError::Empty => "the given byte slice was empty",
            HttpResponseError::InvalidStatusLine => "the status line is invalid",
            HttpResponseError::NoHeaders => "no headers were found",
            HttpResponseError::InvalidHeader => "invalid header",
            HttpResponseError::NumberParse => "there was a error during parsing a number",
            HttpResponseError::TextDecode => "there was an error with parsing a string",
            HttpResponseError::UnsupportedEncoding => "the transfer encoding is not supported",
        }
    }
}

/// The result of decoding.
pub type HttpResult<T> = Result<T, HttpResponseError>;

/// What a response holds, as mathematical values.
pub ghost struct ResponseModel {
    pub status_code: u16,
    pub headers: Entries,
    pub content: Seq<u8>,
}

/// The name of the header that gives the body's length.
pub open spec fn content_length_name() -> Seq<char> {
    "Content-Length"@
}

/// The name of the header that names the body's framing.
pub open spec fn transfer_encoding_name() -> Seq<char> {
    "Transfer-Encoding"@
}

/// The one framing that `Transfer-Encoding` may name.
pub open spec fn chunked_token() -> Seq<char> {
    "chunked"@
}

/// The status code of a response and the position that follows its status
/// line: the code is the decimal number at bytes 9 to 12 of the line.
pub open spec fn parse_status(d: Seq<u8>) -> HttpResult<(u16, int)> {
    let end = find_crlf(d, 0);
    if d.len() == 0 {
        Err(HttpResponseError::Empty)
    } else if end >= d.len() {
        Err(HttpResponseError::InvalidStatusLine)
    } else if !valid_utf8(d.subrange(0, end)) {
        Err(HttpResponseError::TextDecode)
    } else if end < 12 {
        Err(HttpResponseError::InvalidStatusLine)
    } else {
        match parse_unsigned(d.subrange(9, 12), 10, 65535) {
            None => Err(HttpResponseError::NumberParse),
            Some(code) => Ok((code as u16, end + 2)),
        }
    }
}

/// The name and value of one header line: what stands before and after its
/// first colon and space.
pub open spec fn split_header(line: Seq<u8>) -> HttpResult<(Seq<char>, Seq<char>)> {
    let at = find_pair(line, COLON, SPACE, 0);
    if at >= line.len() {
        Err(HttpResponseError::InvalidHeader)
    } else if !valid_utf8(line.subrange(0, at)) || !valid_utf8(
        line.subrange(at + 2, line.len() as int),
    ) {
        Err(HttpResponseError::TextDecode)
    } else {
        Ok((decode_utf8(line.subrange(0, at)), decode_utf8(line.subrange(at + 2, line.len() as int))))
    }
}

/// The headers of the lines that start at `pos`, written into `acc` in order,
/// and the position that follows the blank line that ends them.
pub open spec fn parse_headers(d: Seq<u8>, pos: int, acc: Entries) -> HttpResult<(Entries, int)>
    decreases d.len() - pos,
{
    let end = find_crlf(d, pos);
    if pos < 0 || end < pos || end + 2 > d.len() {
        Err(HttpResponseError::NoHeaders)
    } else if end == pos {
        Ok((acc, pos + 2))
    } else {
        match split_header(d.subrange(pos, end)) {
            Err(e) => Err(e),
            Ok(entry) => parse_headers(d, end + 2, upsert(acc, entry.0, entry.1)),
        }
    }
}

/// The size that a chunk-size line states, in hexadecimal.
pub open spec fn chunk_length(token: Seq<u8>) -> HttpResult<usize> {
    if !valid_utf8(token) {
        Err(HttpResponseError::TextDecode)
    } else {
        match parse_unsigned(token, 16, usize::MAX as int) {
            None => Err(HttpResponseError::NumberParse),
            Some(n) => Ok(n as usize),
        }
    }
}

/// The payloads of the chunks that start at `pos`, appended to `acc`, up to
/// the first chunk of size zero. Each payload is followed by a CRLF.
pub open spec fn decode_chunks(d: Seq<u8>, pos: int, acc: Seq<u8>) -> HttpResult<Seq<u8>>
    decreases d.len() - pos,
{
    let end = find_crlf(d, pos);
    if pos < 0 || end < pos || end + 2 > d.len() {
        Err(HttpResponseError::NumberParse)
    } else {
        match chunk_length(d.subrange(pos, end)) {
            Err(e) => Err(e),
            Ok(n) => if n == 0 {
                Ok(acc)
            } else if !pair_at(d, CR, LF, end + 2 + n) {
                Err(HttpResponseError::NumberParse)
            } else {
                decode_chunks(d, end + 2 + n + 2, acc + d.subrange(end + 2, end + 2 + n))
            },
        }
    }
}

/// The body of a message whose head ends at `start`: as many bytes as
/// `Content-Length` states; else the chunks, where `Transfer-Encoding` is
/// `chunked`; else everything that is left.
pub open spec fn frame_body(d: Seq<u8>, headers: Entries, start: int) -> HttpResult<Seq<u8>> {
    match lookup(headers, content_length_name()) {
        Some(text) => match parse_unsigned(encode_utf8(text), 10, usize::MAX as int) {
            None => Err(HttpResponseError::NumberParse),
            Some(n) => if start + n <= d.len() {
                Ok(d.subrange(start, start + n))
            } else {
                Err(HttpResponseError::NumberParse)
            },
        },
        None => match lookup(headers, transfer_encoding_name()) {
            None => Ok(d.subrange(start, d.len() as int)),
            Some(encoding) => if encoding == chunked_token() {
                decode_chunks(d, start, Seq::empty())
            } else {
                Err(HttpResponseError::UnsupportedEncoding)
            },
        },
    }
}

/// What the bytes of a response decode to.
pub open spec fn parse_response(d: Seq<u8>) -> HttpResult<ResponseModel> {
    match parse_status(d) {
        Err(e) => Err(e),
        Ok(status) => match parse_headers(d, status.1, Seq::empty()) {
            Err(e) => Err(e),
            Ok(head) => match frame_body(d, head.0, head.1) {
                Err(e) => Err(e),
                Ok(body) => Ok(
                    ResponseModel { status_code: status.0, headers: head.0, content: body },
                ),
            },
        },
    }
}

/// Reads a chunk-size line, without its CRLF, as a hexadecimal number.
pub fn read_chunk_length(buf: &[u8]) -> (r: HttpResult<usize>)
    ensures
        r == chunk_length(buf@),
{
    if utf8_text(buf).is_none() {
        return Err(HttpResponseError::TextDecode);
    }
    match parse_hex(buf, usize::MAX as u64) {
        None => Err(HttpResponseError::NumberParse),
        Some(n) => Ok(n as usize),
    }
}

/// Decodes the chunked body that starts at `start`.
pub fn decode_chunked(d: &[u8], start: usize) -> (r: HttpResult<Bytes>)
    ensures
        match r {
            Ok(body) => decode_chunks(d@, start as int, Seq::empty()) == Ok::<
                Seq<u8>,
                HttpResponseError,
            >(bytes_contents(body)),
            Err(e) => decode_chunks(d@, start as int, Seq::empty()) == Err::<
                Seq<u8>,
                HttpResponseError,
            >(e),
        },
{
    let len: usize = d.len();
    if start > len {
        return Err(HttpResponseError::NumberParse);
    }
    let mut body = BytesMut::with_capacity(368);
    let mut pos: usize = start;
    loop
        invariant
            len == d@.len(),
            start <= pos <= len,
            bytes_mut_contents(body).len() <= pos - start,
            decode_chunks(d@, start as int, Seq::empty()) == decode_chunks(
                d@,
                pos as int,
                bytes_mut_contents(body),
            ),
        decreases len - pos,
    {
        let end: usize = match find_pair_from(d, CR, LF, pos) {
            None => {
                return Err(HttpResponseError::NumberParse);
            },
            Some(e) => e,
        };
        let n: usize = match read_chunk_length(slice_subrange(d, pos, end)) {
            Err(e) => {
                return Err(e);
            },
            Ok(n) => n,
        };
        if n == 0 {
            return Ok(body.freeze());
        }
        let data: usize = end + 2;
        if n > len - data {
            return Err(HttpResponseError::NumberParse);
        }
        let after: usize = data + n;
        if len - after < 2 || d[after] != CR || d[after + 1] != LF {
            return Err(HttpResponseError::NumberParse);
        }
        body.extend_from_slice(slice_subrange(d, data, after));
        pos = after + 2;
    }
}

/// A decoded response.
#[derive(Debug)]
pub struct Response {
    pub status_code: u16,
    pub headers: HeaderMap,
    pub content: Bytes,
}

impl View for Response {
    type V = ResponseModel;

    open spec fn view(&self) -> ResponseModel {
        ResponseModel {
            status_code: self.status_code,
            headers: self.headers@,
            content: bytes_contents(self.content),
        }
    }
}

/// Reads the status code of a response.
fn read_status(d: &[u8]) -> (r: HttpResult<(u16, usize)>)
    ensures
        match r {
            Ok(s) => parse_status(d@) == Ok::<(u16, int), HttpResponseError>((s.0, s.1 as int))
                && s.1 <= d@.len(),
            Err(e) => parse_status(d@) == Err::<(u16, int), HttpResponseError>(e),
        },
{
    if d.len() == 0 {
        return Err(HttpResponseError::Empty);
    }
    let end: usize = match find_pair_from(d, CR, LF, 0) {
        None => {
            return Err(HttpResponseError::InvalidStatusLine);
        },
        Some(e) => e,
    };
    if utf8_text(slice_subrange(d, 0, end)).is_none() {
        return Err(HttpResponseError::TextDecode);
    }
    if end < 12 {
        return Err(HttpResponseError::InvalidStatusLine);
    }
    match parse_decimal(slice_subrange(d, 9, 12), 65535) {
        None => Err(HttpResponseError::NumberParse),
        Some(code) => Ok((code as u16, end + 2)),
    }
}

/// Writes the header that one line holds into `headers`.
fn read_header(line: &[u8], headers: &mut HeaderMap) -> (r: HttpResult<()>)
    ensures
        match r {
            Ok(_) => match split_header(line@) {
                Ok(entry) => final(headers)@ == upsert(old(headers)@, entry.0, entry.1),
                Err(_) => false,
            },
            Err(e) => split_header(line@) == Err::<(Seq<char>, Seq<char>), HttpResponseError>(e),
        },
{
    let len: usize = line.len();
    let at: usize = match find_pair_from(line, COLON, SPACE, 0) {
        None => {
            return Err(HttpResponseError::InvalidHeader);
        },
        Some(i) => i,
    };
    let name = match utf8_text(slice_subrange(line, 0, at)) {
        None => {
            return Err(HttpResponseError::TextDecode);
        },
        Some(s) => s,
    };
    let value = match utf8_text(slice_subrange(line, at + 2, len)) {
        None => {
            return Err(HttpResponseError::TextDecode);
        },
        Some(s) => s,
    };
    proof {
        lemma_text_of_bytes(name@, line@.subrange(0, at as int));
        lemma_text_of_bytes(value@, line@.subrange(at + 2, line@.len() as int));
    }
    headers.insert(name, value);
    Ok(())
}

/// Reads the header lines that start at `start`, up to their blank line.
fn read_headers(d: &[u8], start: usize) -> (r: HttpResult<(HeaderMap, usize)>)
    requires
        start <= d@.len(),
    ensures
        match r {
            Ok(h) => parse_headers(d@, start as int, Seq::empty()) == Ok::<
                (Entries, int),
                HttpResponseError,
            >((h.0@, h.1 as int)) && h.1 <= d@.len(),
            Err(e) => parse_headers(d@, start as int, Seq::empty()) == Err::<
                (Entries, int),
                HttpResponseError,
            >(e),
        },
{
    let len: usize = d.len();
    let mut headers = HeaderMap::new();
    let mut pos: usize = start;
    loop
        invariant
            len == d@.len(),
            start <= pos <= len,
            parse_headers(d@, start as int, Seq::empty()) == parse_headers(
                d@,
                pos as int,
                headers@,
            ),
        decreases len - pos,
    {
        let end: usize = match find_pair_from(d, CR, LF, pos) {
            None => {
                return Err(HttpResponseError::NoHeaders);
            },
            Some(e) => e,
        };
        if end == pos {
            return Ok((headers, pos + 2));
        }
        match read_header(slice_subrange(d, pos, end), &mut headers) {
            Err(e) => {
                return Err(e);
            },
            Ok(_) => {},
        }
        pos = end + 2;
    }
}

/// Takes the body of a message whose head ends at `start`.
fn read_body(d: &[u8], headers: &HeaderMap, start: usize) -> (r: HttpResult<Bytes>)
    requires
        start <= d@.len(),
    ensures
        match r {
            Ok(body) => frame_body(d@, headers@, start as int) == Ok::<
                Seq<u8>,
                HttpResponseError,
            >(bytes_contents(body)),
            Err(e) => frame_body(d@, headers@, start as int) == Err::<Seq<u8>, HttpResponseError>(
                e,
            ),
        },
{
    let len: usize = d.len();
    match headers.get("Content-Length") {
        Some(text) => {
            match parse_decimal(text.as_bytes(), usize::MAX as u64) {
                None => Err(HttpResponseError::NumberParse),
                Some(n) => {
                    if n as usize <= len - start {
                        Ok(Bytes::copy_from_slice(slice_subrange(d, start, start + n as usize)))
                    } else {
                        Err(HttpResponseError::NumberParse)
                    }
                },
            }
        },
        None => match headers.get("Transfer-Encoding") {
            None => Ok(Bytes::copy_from_slice(slice_subrange(d, start, len))),
            Some(encoding) => {
                if crate::https::text::str_eq(encoding, "chunked") {
                    decode_chunked(d, start)
                } else {
                    Err(HttpResponseError::UnsupportedEncoding)
                }
            },
        },
    }
}

impl Response {
    /// Decodes a response from its bytes.
    pub fn from_slice(d: &[u8]) -> (r: HttpResult<Response>)
        ensures
            match r {
                Ok(response) => parse_response(d@) == Ok::<ResponseModel, HttpResponseError>(
                    response@,
                ),
                Err(e) => parse_response(d@) == Err::<ResponseModel, HttpResponseError>(e),
            },
    {
        let status = match read_status(d) {
            Err(e) => {
                return Err(e);
            },
            Ok(s) => s,
        };
        let head = match read_headers(d, status.1) {
            Err(e) => {
                return Err(e);
            },
            Ok(h) => h,
        };
        let content = match read_body(d, &head.0, head.1) {
            Err(e) => {
                return Err(e);
            },
            Ok(b) => b,
        };
        Ok(Response { status_code: status.0, headers: head.0, content })
    }
}

/// No bytes decode to the error `Empty`.
pub proof fn lemma_empty_input()
    ensures
        parse_response(Seq::empty()) == Err::<ResponseModel, HttpResponseError>(
            HttpResponseError::Empty,
        ),
{
}

/// A status line that is terminated, is text and has twelve bytes or more,
/// but holds no number at bytes 9 to 12, decodes to the error `NumberParse`.
pub proof fn lemma_malformed_status(d: Seq<u8>)
    requires
        12 <= find_crlf(d, 0) < d.len(),
        valid_utf8(d.subrange(0, find_crlf(d, 0))),
        parse_unsigned(d.subrange(9, 12), 10, 65535) is None,
    ensures
        parse_response(d) == Err::<ResponseModel, HttpResponseError>(
            HttpResponseError::NumberParse,
        ),
{
}

/// With a `Content-Length` that the input can meet, the body is exactly that
/// many bytes after the head; what follows them is ignored.
pub proof fn lemma_fixed_length_body(d: Seq<u8>, headers: Entries, start: int, n: nat)
    requires
        lookup(headers, content_length_name()) is Some,
        parse_unsigned(
            encode_utf8(lookup(headers, content_length_name())->0),
            10,
            usize::MAX as int,
        ) == Some(n as int),
        0 <= start,
        start + n <= d.len(),
    ensures
        frame_body(d, headers, start) == Ok::<Seq<u8>, HttpResponseError>(
            d.subrange(start, start + n),
        ),
        d.subrange(start, start + n).len() == n,
{
}

/// With neither `Content-Length` nor `Transfer-Encoding`, the body is
/// everything after the head.
pub proof fn lemma_unframed_body(d: Seq<u8>, headers: Entries, start: int)
    requires
        lookup(headers, content_length_name()) is None,
        lookup(headers, transfer_encoding_name()) is None,
    ensures
        frame_body(d, headers, start) == Ok::<Seq<u8>, HttpResponseError>(
            d.subrange(start, d.len() as int),
        ),
{
}

} // verus!
