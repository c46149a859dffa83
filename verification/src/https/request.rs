//! The request encoder: a method, a route, headers and an optional body to
//! the bytes of an HTTP/1.1 request.

use crate::https::client::Methods;
use crate::https::headers::{upsert, Entries, HeaderMap};
use crate::https::number::{decimal_text, push_decimal};
use crate::https::text::utf8_text;
use crate::https::wire::{crlf, header_separator, push_bytes, COLON, CR, LF, SPACE};
use vstd::prelude::*;
use vstd::string::StringSliceAdditionalSpecFns;
use vstd::utf8::encode_utf8;

verus! {

/// What a request builder holds, as mathematical values.
pub ghost struct RequestModel {
    pub method: Option<Methods>,
    pub route: Option<Seq<char>>,
    pub headers: Entries,
    pub content: Option<Seq<u8>>,
}

/// The token that names a method on the wire.
pub open spec fn method_name(m: Methods) -> Seq<char> {
    match m {
        Methods::GET => "GET"@,
        Methods::POST => "POST"@,
        Methods::PUT => "PUT"@,
        Methods::PATCH => "PATCH"@,
        Methods::DELETE => "DELETE"@,
        Methods::HEAD => "HEAD"@,
        Methods::CONNECT => "CONNECT"@,
        Methods::OPTIONS => "OPTIONS"@,
    }
}

/// The first line of a request.
pub open spec fn request_line(method: Methods, route: Seq<char>) -> Seq<u8> {
    encode_utf8(method_name(method)) + seq![SPACE] + encode_utf8(route) + seq![SPACE] + encode_utf8(
        "HTTP/1.1"@,
    ) + crlf()
}

/// One header on the wire.
pub open spec fn header_line(name: Seq<char>, value: Seq<char>) -> Seq<u8> {
    encode_utf8(name) + header_separator() + encode_utf8(value) + crlf()
}

/// The headers on the wire, in the order of the collection.
pub open spec fn header_block(e: Entries) -> Seq<u8>
    decreases e.len(),
{
    if e.len() == 0 {
        Seq::empty()
    } else {
        header_block(e.drop_last()) + header_line(e.last().0, e.last().1)
    }
}

/// The method that a request is sent with: `GET` where none was set.
pub open spec fn wire_method(m: RequestModel) -> Methods {
    match m.method {
        Some(method) => method,
        None => Methods::GET,
    }
}

/// The route that a request is sent with: `/` where none was set.
pub open spec fn wire_route(m: RequestModel) -> Seq<char> {
    match m.route {
        Some(route) => route,
        None => "/"@,
    }
}

/// The body that a request is sent with: none is an empty one.
pub open spec fn wire_body(m: RequestModel) -> Seq<u8> {
    match m.content {
        Some(content) => content,
        None => Seq::empty(),
    }
}

/// The headers that a request is sent with: those of the builder, with
/// `Content-Length` set to the body's length where the body is not empty.
pub open spec fn wire_headers(m: RequestModel) -> Entries {
    if wire_body(m).len() > 0 {
        upsert(m.headers, "Content-Length"@, decimal_text(wire_body(m).len()))
    } else {
        m.headers
    }
}

/// The bytes of a request: the request line, the headers, a blank line and
/// the body.
pub open spec fn request_wire(m: RequestModel) -> Seq<u8> {
    request_line(wire_method(m), wire_route(m)) + header_block(wire_headers(m)) + crlf()
        + wire_body(m)
}

/// The token that names a method on the wire.
fn method_token(m: Methods) -> (r: &'static str)
    ensures
        r@ == method_name(m),
{
    match m {
        Methods::GET => "GET",
        Methods::POST => "POST",
        Methods::PUT => "PUT",
        Methods::PATCH => "PATCH",
        Methods::DELETE => "DELETE",
        Methods::HEAD => "HEAD",
        Methods::CONNECT => "CONNECT",
        Methods::OPTIONS => "OPTIONS",
    }
}

/// Appends the wire form of every header of `headers` to `buf`.
fn push_headers(buf: &mut Vec<u8>, headers: &HeaderMap)
    ensures
        final(buf)@ == old(buf)@ + header_block(headers@),
{
    let n: usize = headers.len();
    let mut i: usize = 0;
    assert(headers@.take(0) =~= Seq::<(Seq<char>, Seq<char>)>::empty());
    while i < n
        invariant
            i <= n,
            n == headers@.len(),
            buf@ == old(buf)@ + header_block(headers@.take(i as int)),
        decreases n - i,
    {
        let ghost before = buf@;
        let ghost next = headers@.take(i + 1);
        assert(next.drop_last() =~= headers@.take(i as int));
        assert(next.last() == headers@[i as int]);
        push_bytes(buf, headers.name_at(i).as_bytes());
        push_bytes(buf, &[COLON, SPACE]);
        push_bytes(buf, headers.value_at(i).as_bytes());
        push_bytes(buf, &[CR, LF]);
        assert(buf@ =~= before + header_line(headers@[i as int].0, headers@[i as int].1));
        assert(buf@ =~= old(buf)@ + header_block(next));
        i += 1;
    }
    assert(headers@.take(n as int) =~= headers@);
}

/// A request under construction.
pub struct RequestBuilder {
    method: Option<Methods>,
    route: Option<String>,
    headers: HeaderMap,
    content: Option<Vec<u8>>,
}

impl View for RequestBuilder {
    type V = RequestModel;

    closed spec fn view(&self) -> RequestModel {
        RequestModel {
            method: self.method,
            route: match self.route {
                Some(r) => Some(r@),
                None => None,
            },
            headers: self.headers@,
            content: match self.content {
                Some(c) => Some(c@),
                None => None,
            },
        }
    }
}

impl RequestBuilder {
    /// A builder with nothing set.
    pub fn new() -> (r: Self)
        ensures
            r@ == (RequestModel {
                method: None,
                route: None,
                headers: Seq::empty(),
                content: None,
            }),
    {
        RequestBuilder { method: None, route: None, headers: HeaderMap::new(), content: None }
    }

    /// Sets the method.
    pub fn http_method(&mut self, m: Methods) -> (r: &mut Self)
        ensures
            r@ == (RequestModel { method: Some(m), ..old(self)@ }),
            *final(self) == *final(r),
    {
        self.method = Some(m);
        self
    }

    /// Writes every header of `h` into the request's headers.
    pub fn headers(&mut self, h: &HeaderMap) -> (r: &mut Self)
        ensures
            r@ == (RequestModel {
                headers: crate::https::headers::merge(old(self)@.headers, h@),
                ..old(self)@
            }),
            *final(self) == *final(r),
    {
        self.headers.extend(h);
        self
    }

    /// Sets the `Host` header.
    pub fn host(&mut self, ht: &str) -> (r: &mut Self)
        ensures
            r@ == (RequestModel {
                headers: upsert(old(self)@.headers, "Host"@, ht@),
                ..old(self)@
            }),
            *final(self) == *final(r),
    {
        self.headers.insert("Host", ht);
        self
    }

    /// Sets the body.
    pub fn content(&mut self, c: Vec<u8>) -> (r: &mut Self)
        ensures
            r@ == (RequestModel { content: Some(c@), ..old(self)@ }),
            *final(self) == *final(r),
    {
        self.content = Some(c);
        self
    }

    /// Sets the route.
    pub fn route(&mut self, r: &str) -> (b: &mut Self)
        ensures
            b@ == (RequestModel { route: Some(r@), ..old(self)@ }),
            *final(self) == *final(b),
    {
        self.route = Some(r.to_owned());
        self
    }

    /// Encodes the request.
    pub fn build(self) -> (bytes: Vec<u8>)
        ensures
            bytes@ == request_wire(self@),
    {
        let mut this = self;
        let mut buf: Vec<u8> = Vec::new();
        let method = match this.method {
            None => Methods::GET,
            Some(m) => m,
        };
        push_bytes(&mut buf, method_token(method).as_bytes());
        buf.push(SPACE);
        match &this.route {
            Some(r) => push_bytes(&mut buf, r.as_str().as_bytes()),
            None => push_bytes(&mut buf, "/".as_bytes()),
        }
        buf.push(SPACE);
        push_bytes(&mut buf, "HTTP/1.1".as_bytes());
        push_bytes(&mut buf, &[CR, LF]);
        assert(buf@ =~= request_line(wire_method(self@), wire_route(self@)));
        let length: usize = match &this.content {
            Some(c) => c.len(),
            None => 0,
        };
        if length > 0 {
            let mut digits: Vec<u8> = Vec::new();
            push_decimal(&mut digits, length as u64);
            proof {
                crate::https::number::lemma_digits_are_text(length as nat);
            }
            match utf8_text(digits.as_slice()) {
                Some(text) => {
                    proof {
                        crate::https::text::lemma_text_of_bytes(text@, digits@);
                    }
                    this.headers.insert("Content-Length", text);
                },
                None => {},
            }
        }
        assert(this.headers@ == wire_headers(self@));
        push_headers(&mut buf, &this.headers);
        push_bytes(&mut buf, &[CR, LF]);
        match &this.content {
            Some(c) => push_bytes(&mut buf, c.as_slice()),
            None => {},
        }
        assert(buf@ =~= request_wire(self@));
        buf
    }
}

} // verus!
