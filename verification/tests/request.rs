use verdun::https::client::{HttpsClient, Methods};
use verdun::https::headers::HeaderMap;
use verdun::https::request::RequestBuilder;
use verdun::https::response::Response;

#[test]
fn empty_builder_is_a_get_of_the_root() {
    assert_eq!(RequestBuilder::new().build(), b"GET / HTTP/1.1\r\n\r\n".to_vec());
}

#[test]
fn every_method_has_its_token() {
    let all = [
        (Methods::GET, "GET"),
        (Methods::POST, "POST"),
        (Methods::PUT, "PUT"),
        (Methods::PATCH, "PATCH"),
        (Methods::DELETE, "DELETE"),
        (Methods::HEAD, "HEAD"),
        (Methods::CONNECT, "CONNECT"),
        (Methods::OPTIONS, "OPTIONS"),
    ];
    for (m, token) in all {
        let mut b = RequestBuilder::new();
        b.http_method(m).route("/x");
        assert_eq!(b.build(), format!("{} /x HTTP/1.1\r\n\r\n", token).into_bytes());
    }
}

#[test]
fn headers_come_in_order_before_the_blank_line() {
    let mut h = HeaderMap::new();
    h.insert("User-Agent", "t");
    h.insert("Accept", "*/*");
    let mut b = RequestBuilder::new();
    b.http_method(Methods::GET).headers(&h).route("/index.html").host("example.com");
    assert_eq!(
        b.build(),
        b"GET /index.html HTTP/1.1\r\nUser-Agent: t\r\nAccept: */*\r\nHost: example.com\r\n\r\n"
            .to_vec()
    );
}

#[test]
fn body_gets_its_length_as_a_header() {
    let mut b = RequestBuilder::new();
    b.http_method(Methods::POST).route("/p").host("h").content(b"hello world!".to_vec());
    assert_eq!(
        b.build(),
        b"POST /p HTTP/1.1\r\nHost: h\r\nContent-Length: 12\r\n\r\nhello world!".to_vec()
    );
}

#[test]
fn empty_body_gets_no_length() {
    let mut b = RequestBuilder::new();
    b.http_method(Methods::POST).route("/p").content(Vec::new());
    assert_eq!(b.build(), b"POST /p HTTP/1.1\r\n\r\n".to_vec());
}

#[test]
fn given_content_length_is_replaced_by_the_true_one() {
    let mut h = HeaderMap::new();
    h.insert("Content-Length", "999");
    h.insert("X", "y");
    let mut b = RequestBuilder::new();
    b.headers(&h).content(vec![1, 2, 3]);
    assert_eq!(
        b.build(),
        b"GET / HTTP/1.1\r\nContent-Length: 3\r\nX: y\r\n\r\n\x01\x02\x03".to_vec()
    );
}

#[test]
fn later_settings_replace_earlier_ones() {
    let mut b = RequestBuilder::new();
    b.http_method(Methods::PUT).http_method(Methods::DELETE).route("/a").route("/b").host("one").host("two");
    assert_eq!(b.build(), b"DELETE /b HTTP/1.1\r\nHost: two\r\n\r\n".to_vec());
}

#[test]
fn encoded_head_and_body_decode_again() {
    let mut h = HeaderMap::new();
    h.insert("User-Agent", "Verdun/0.2.2");
    h.insert("Accept", "text/html");
    let body = b"field=value&other=\r\n\r\n1".to_vec();
    let mut b = RequestBuilder::new();
    b.http_method(Methods::POST).headers(&h).route("/submit").host("example.org").content(body.clone());
    let wire = b.build();
    let line_end = wire.windows(2).position(|w| w == b"\r\n").unwrap();
    assert_eq!(&wire[..line_end], b"POST /submit HTTP/1.1");
    let mut as_response = b"HTTP/1.1 200 OK".to_vec();
    as_response.extend_from_slice(&wire[line_end..]);
    let r = Response::from_slice(&as_response).unwrap();
    assert_eq!(r.headers.len(), 4);
    assert_eq!(r.headers.get("User-Agent"), Some("Verdun/0.2.2"));
    assert_eq!(r.headers.get("Accept"), Some("text/html"));
    assert_eq!(r.headers.get("Host"), Some("example.org"));
    assert_eq!(r.headers.get("Content-Length"), Some("23"));
    assert_eq!(&r.content[..], &body[..]);
}

#[test]
fn client_prepares_a_get() {
    let mut extra = HeaderMap::new();
    extra.insert("Connection", "close");
    let mut client = HttpsClient::new("Verdun/0.2.2", Some(&extra));
    let p = client.get("https://www.rust-lang.org/learn?x=1", None).unwrap();
    assert_eq!(p.domain, "www.rust-lang.org");
    assert_eq!(p.socket_addr, "www.rust-lang.org:443");
    assert_eq!(
        p.bytes,
        b"GET /learn HTTP/1.1\r\nUser-Agent: Verdun/0.2.2\r\nConnection: close\r\nHost: www.rust-lang.org\r\n\r\n"
            .to_vec()
    );
}

#[test]
fn client_prepares_a_post_with_call_headers_last() {
    let mut call = HeaderMap::new();
    call.insert("User-Agent", "other");
    call.insert("Content-Type", "text/plain");
    let mut client = HttpsClient::new("agent", None);
    let p = client.post("http://example.com/form", Some(b"abc".to_vec()), Some(&call)).unwrap();
    assert_eq!(p.socket_addr, "example.com:80");
    assert_eq!(
        p.bytes,
        b"POST /form HTTP/1.1\r\nUser-Agent: other\r\nHost: example.com\r\nContent-Type: text/plain\r\nContent-Length: 3\r\n\r\nabc"
            .to_vec()
    );
}

#[test]
fn client_rejects_what_is_no_url() {
    let mut client = HttpsClient::new("agent", None);
    assert!(client.get("not a url", None).is_err());
}
