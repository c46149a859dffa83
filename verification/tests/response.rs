use verdun::https::response::{decode_chunked, read_chunk_length, HttpResponseError, Response};

fn decode(text: &[u8]) -> Result<Response, HttpResponseError> {
    Response::from_slice(text)
}

#[test]
fn empty_input_is_empty() {
    assert_eq!(decode(b"").unwrap_err(), HttpResponseError::Empty);
}

#[test]
fn content_length_takes_exactly_that_many_bytes() {
    let r = decode(b"HTTP/1.1 200 OK\r\nContent-Length: 5\r\n\r\nhelloXYZ").unwrap();
    assert_eq!(r.status_code, 200);
    assert_eq!(&r.content[..], b"hello");
    assert_eq!(r.headers.get("Content-Length"), Some("5"));
    assert_eq!(r.headers.len(), 1);
}

#[test]
fn content_length_zero_gives_empty_body() {
    let r = decode(b"HTTP/1.1 204 No Content\r\nContent-Length: 0\r\n\r\nignored").unwrap();
    assert_eq!(r.status_code, 204);
    assert_eq!(&r.content[..], b"");
}

#[test]
fn body_without_framing_is_everything_left() {
    let r = decode(b"HTTP/1.1 200 OK\r\nServer: x\r\n\r\nall of\r\nthis").unwrap();
    assert_eq!(&r.content[..], b"all of\r\nthis");
    assert_eq!(r.headers.get("Server"), Some("x"));
}

#[test]
fn no_headers_at_all_is_accepted() {
    let r = decode(b"HTTP/1.1 404 Not Found\r\n\r\nbody").unwrap();
    assert_eq!(r.status_code, 404);
    assert_eq!(r.headers.len(), 0);
    assert_eq!(&r.content[..], b"body");
}

#[test]
fn chunked_body_is_joined() {
    let r = decode(
        b"HTTP/1.1 200 OK\r\nTransfer-Encoding: chunked\r\n\r\n4\r\nWiki\r\n5\r\npedia\r\n0\r\n\r\n",
    )
    .unwrap();
    assert_eq!(&r.content[..], b"Wikipedia");
}

#[test]
fn chunked_body_of_one_terminal_chunk_is_empty() {
    let r = decode(b"HTTP/1.1 200 OK\r\nTransfer-Encoding: chunked\r\n\r\n0\r\n\r\n").unwrap();
    assert_eq!(&r.content[..], b"");
}

#[test]
fn chunk_sizes_are_hexadecimal() {
    let mut wire = b"HTTP/1.1 200 OK\r\nTransfer-Encoding: chunked\r\n\r\n1A\r\n".to_vec();
    wire.extend_from_slice(b"abcdefghijklmnopqrstuvwxyz");
    wire.extend_from_slice(b"\r\n0\r\n\r\n");
    let r = decode(&wire).unwrap();
    assert_eq!(&r.content[..], b"abcdefghijklmnopqrstuvwxyz");
}

#[test]
fn chunk_payload_may_hold_line_breaks() {
    let r = decode(b"HTTP/1.1 200 OK\r\nTransfer-Encoding: chunked\r\n\r\n4\r\n\r\n\r\n\r\n0\r\n\r\n")
        .unwrap();
    assert_eq!(&r.content[..], b"\r\n\r\n");
}

#[test]
fn content_length_wins_over_transfer_encoding() {
    let r = decode(
        b"HTTP/1.1 200 OK\r\nTransfer-Encoding: chunked\r\nContent-Length: 3\r\n\r\n4\r\nWiki\r\n",
    )
    .unwrap();
    assert_eq!(&r.content[..], b"4\r\n");
}

#[test]
fn other_transfer_encoding_is_unsupported() {
    assert_eq!(
        decode(b"HTTP/1.1 200 OK\r\nTransfer-Encoding: gzip\r\n\r\nabc").unwrap_err(),
        HttpResponseError::UnsupportedEncoding
    );
}

#[test]
fn non_numeric_status_is_a_number_error() {
    assert_eq!(
        decode(b"HTTP/1.1 abc OK\r\n\r\n").unwrap_err(),
        HttpResponseError::NumberParse
    );
}

#[test]
fn short_or_unterminated_status_line_is_invalid() {
    assert_eq!(decode(b"HTTP/1.1 2\r\n\r\n").unwrap_err(), HttpResponseError::InvalidStatusLine);
    assert_eq!(decode(b"HTTP/1.1 200 OK").unwrap_err(), HttpResponseError::InvalidStatusLine);
}

#[test]
fn status_line_that_is_not_text_is_a_text_error() {
    assert_eq!(
        decode(b"HTTP/1.1 200 \xff\r\n\r\n").unwrap_err(),
        HttpResponseError::TextDecode
    );
}

#[test]
fn unterminated_header_block_has_no_headers() {
    assert_eq!(decode(b"HTTP/1.1 200 OK\r\n").unwrap_err(), HttpResponseError::NoHeaders);
    assert_eq!(
        decode(b"HTTP/1.1 200 OK\r\nA: b\r\nC: d").unwrap_err(),
        HttpResponseError::NoHeaders
    );
}

#[test]
fn header_without_separator_is_invalid() {
    assert_eq!(
        decode(b"HTTP/1.1 200 OK\r\nNoSeparator\r\n\r\n").unwrap_err(),
        HttpResponseError::InvalidHeader
    );
}

#[test]
fn header_that_is_not_text_is_a_text_error() {
    assert_eq!(
        decode(b"HTTP/1.1 200 OK\r\nA: \xc3\x28\r\n\r\n").unwrap_err(),
        HttpResponseError::TextDecode
    );
}

#[test]
fn header_value_keeps_later_separators() {
    let r = decode(b"HTTP/1.1 200 OK\r\nDate: Mon: now\r\n\r\n").unwrap();
    assert_eq!(r.headers.get("Date"), Some("Mon: now"));
}

#[test]
fn duplicate_header_keeps_last_value() {
    let r = decode(b"HTTP/1.1 200 OK\r\nA: 1\r\nB: 2\r\nA: 3\r\n\r\n").unwrap();
    assert_eq!(r.headers.get("A"), Some("3"));
    assert_eq!(r.headers.get("B"), Some("2"));
    assert_eq!(r.headers.len(), 2);
}

#[test]
fn header_names_are_case_sensitive() {
    let r = decode(b"HTTP/1.1 200 OK\r\ncontent-length: 2\r\n\r\nabcdef").unwrap();
    assert_eq!(r.headers.get("Content-Length"), None);
    assert_eq!(&r.content[..], b"abcdef");
}

#[test]
fn bad_content_length_is_a_number_error() {
    assert_eq!(
        decode(b"HTTP/1.1 200 OK\r\nContent-Length: five\r\n\r\nhello").unwrap_err(),
        HttpResponseError::NumberParse
    );
    assert_eq!(
        decode(b"HTTP/1.1 200 OK\r\nContent-Length: \r\n\r\nhello").unwrap_err(),
        HttpResponseError::NumberParse
    );
    assert_eq!(
        decode(b"HTTP/1.1 200 OK\r\nContent-Length: 99999999999999999999999\r\n\r\nhello")
            .unwrap_err(),
        HttpResponseError::NumberParse
    );
}

#[test]
fn content_length_beyond_the_input_is_a_number_error() {
    assert_eq!(
        decode(b"HTTP/1.1 200 OK\r\nContent-Length: 6\r\n\r\nhello").unwrap_err(),
        HttpResponseError::NumberParse
    );
}

#[test]
fn bad_chunk_size_is_a_number_error() {
    assert_eq!(
        decode(b"HTTP/1.1 200 OK\r\nTransfer-Encoding: chunked\r\n\r\nzz\r\nabc\r\n0\r\n\r\n")
            .unwrap_err(),
        HttpResponseError::NumberParse
    );
    assert_eq!(
        decode(b"HTTP/1.1 200 OK\r\nTransfer-Encoding: chunked\r\n\r\n5\r\nabc\r\n").unwrap_err(),
        HttpResponseError::NumberParse
    );
    assert_eq!(
        decode(b"HTTP/1.1 200 OK\r\nTransfer-Encoding: chunked\r\n\r\n3\r\nabcXX0\r\n\r\n")
            .unwrap_err(),
        HttpResponseError::NumberParse
    );
    assert_eq!(
        decode(b"HTTP/1.1 200 OK\r\nTransfer-Encoding: chunked\r\n\r\n3\r\nabc\r\n").unwrap_err(),
        HttpResponseError::NumberParse
    );
}

#[test]
fn chunk_size_that_is_not_text_is_a_text_error() {
    assert_eq!(
        decode(b"HTTP/1.1 200 OK\r\nTransfer-Encoding: chunked\r\n\r\n\xff\r\n").unwrap_err(),
        HttpResponseError::TextDecode
    );
}

#[test]
fn status_code_accepts_a_plus_sign_and_leading_zeros() {
    assert_eq!(decode(b"HTTP/1.1 +12 OK\r\n\r\n").unwrap().status_code, 12);
    assert_eq!(decode(b"HTTP/1.1 007 OK\r\n\r\n").unwrap().status_code, 7);
}

#[test]
fn read_chunk_length_reads_hexadecimal() {
    assert_eq!(read_chunk_length(b"0"), Ok(0));
    assert_eq!(read_chunk_length(b"ff"), Ok(255));
    assert_eq!(read_chunk_length(b"FF"), Ok(255));
    assert_eq!(read_chunk_length(b"+1a"), Ok(26));
    assert_eq!(read_chunk_length(b"10"), Ok(16));
    assert_eq!(read_chunk_length(b""), Err(HttpResponseError::NumberParse));
    assert_eq!(read_chunk_length(b"+"), Err(HttpResponseError::NumberParse));
    assert_eq!(read_chunk_length(b"-1"), Err(HttpResponseError::NumberParse));
    assert_eq!(read_chunk_length(b"1g"), Err(HttpResponseError::NumberParse));
    assert_eq!(read_chunk_length(b"5;ext"), Err(HttpResponseError::NumberParse));
    assert_eq!(read_chunk_length(b"\xff"), Err(HttpResponseError::TextDecode));
    assert_eq!(
        read_chunk_length(b"fffffffffffffffffffffffffffffffff"),
        Err(HttpResponseError::NumberParse)
    );
}

#[test]
fn read_chunk_length_reaches_the_largest_size() {
    let text = format!("{:x}", usize::MAX);
    assert_eq!(read_chunk_length(text.as_bytes()), Ok(usize::MAX));
}

#[test]
fn decode_chunked_starts_where_it_is_told() {
    let wire = b"skip3\r\nabc\r\n0\r\n";
    let body = decode_chunked(wire, 4).unwrap();
    assert_eq!(&body[..], b"abc");
}

#[test]
fn chunks_round_trip() {
    let chunks: Vec<&[u8]> = vec![b"a", b"bc\r\n", b"0123456789abcdefXYZ", b"\x00\xff"];
    let mut wire = Vec::new();
    let mut whole = Vec::new();
    for c in &chunks {
        wire.extend_from_slice(format!("{:x}\r\n", c.len()).as_bytes());
        wire.extend_from_slice(c);
        wire.extend_from_slice(b"\r\n");
        whole.extend_from_slice(c);
    }
    wire.extend_from_slice(b"0\r\n\r\n");
    let body = decode_chunked(&wire, 0).unwrap();
    assert_eq!(&body[..], &whole[..]);
}
