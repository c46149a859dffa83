//! The request methods and the client that prepares requests: the bytes to
//! send and the server to send them to.

use crate::https::headers::{
    distinct_names, lemma_merge_distinct, lemma_merge_lookup, lemma_upsert, lookup, merge, upsert,
    Entries, HeaderMap,
};
use crate::https::request::{request_wire, RequestBuilder, RequestModel};
use crate::https::url::{
    regex_groups, socket_addr_of, url_group_names, url_of_search, url_pattern, Url, UrlError,
    UrlModel,
};
use vstd::prelude::*;

verus! {

/// The request methods.
#[allow(clippy::upper_case_acronyms)]
#[derive(Clone, Copy, Debug, PartialEq, Eq, Structural)]
pub enum Methods {
    GET,
    POST,
    PUT,
    PATCH,
    DELETE,
    HEAD,
    CONNECT,
    OPTIONS,
}

/// A request that is ready to be sent.
#[derive(Debug)]
pub struct PreparedRequest {
    /// The name under which the server identifies itself.
    pub domain: String,
    /// The server's `host:port`.
    pub socket_addr: String,
    /// The bytes of the request.
    pub bytes: Vec<u8>,
}

/// A client: the headers that every request of it carries.
#[derive(Debug)]
pub struct HttpsClient {
    headers: HeaderMap,
}

impl View for HttpsClient {
    type V = Entries;

    closed spec fn view(&self) -> Entries {
        self.headers@
    }
}

/// The headers of an optional collection: none where there is no collection.
pub open spec fn optional_entries(h: Option<&HeaderMap>) -> Entries {
    match h {
        Some(m) => m@,
        None => Seq::empty(),
    }
}

/// The headers of a client made for `agent`: `User-Agent`, then the extra
/// ones.
pub open spec fn client_headers(agent: Seq<char>, extra: Entries) -> Entries {
    merge(seq![("User-Agent"@, agent)], extra)
}

/// The request that a client with the headers `base` makes: its own headers,
/// then `Host` from the URL, then the headers of the call.
pub open spec fn request_model(
    base: Entries,
    method: Methods,
    url: UrlModel,
    content: Option<Seq<u8>>,
    extra: Entries,
) -> RequestModel {
    RequestModel {
        method: Some(method),
        route: Some(url.route),
        headers: merge(upsert(merge(Seq::empty(), base), "Host"@, url.domain), extra),
        content,
    }
}

/// The view of an optional body.
pub open spec fn optional_bytes(content: Option<Vec<u8>>) -> Option<Seq<u8>> {
    match content {
        Some(c) => Some(c@),
        None => None,
    }
}

/// Whether `p` is the request that a client with the headers `base` makes
/// for `url`.
pub open spec fn prepared_for(
    p: PreparedRequest,
    base: Entries,
    method: Methods,
    url: UrlModel,
    content: Option<Seq<u8>>,
    extra: Entries,
) -> bool {
    &&& p.domain@ == url.domain
    &&& p.socket_addr@ == socket_addr_of(url)
    &&& p.bytes@ == request_wire(request_model(base, method, url, content, extra))
}

impl HttpsClient {
    /// A client that names itself `agent` and adds `extra_headers` to every
    /// request.
    pub fn new(agent: &str, extra_headers: Option<&HeaderMap>) -> (r: Self)
        ensures
            r@ == client_headers(agent@, optional_entries(extra_headers)),
    {
        let mut headers = HeaderMap::new();
        headers.insert("User-Agent", agent);
        assert(headers@ =~= seq![("User-Agent"@, agent@)]);
        match extra_headers {
            Some(h) => {
                headers.extend(h);
            },
            None => {},
        }
        HttpsClient { headers }
    }

    /// Prepares a request to a URL that was split already.
    pub fn prepare(
        &self,
        method: Methods,
        url: &Url,
        content: Option<Vec<u8>>,
        headers: Option<&HeaderMap>,
    ) -> (r: PreparedRequest)
        ensures
            prepared_for(
                r,
                self@,
                method,
                url@,
                optional_bytes(content),
                optional_entries(headers),
            ),
    {
        let mut req = RequestBuilder::new();
        req.http_method(method).headers(&self.headers).route(url.route()).host(url.domain());
        match content {
            Some(c) => {
                req.content(c);
            },
            None => {},
        }
        match headers {
            Some(h) => {
                req.headers(h);
            },
            None => {},
        }
        let bytes = req.build();
        PreparedRequest {
            domain: url.domain().to_owned(),
            socket_addr: url.socket_addr(),
            bytes,
        }
    }

    /// Prepares a request: splits the URL and encodes the request for it.
    pub fn request(
        &self,
        method: Methods,
        url: &str,
        content: Option<Vec<u8>>,
        headers: Option<&HeaderMap>,
    ) -> (r: Result<PreparedRequest, UrlError>)
        ensures
            match r {
                Ok(p) => match url_of_search(regex_groups(url_pattern(), url@, url_group_names())) {
                    Ok(u) => prepared_for(
                        p,
                        self@,
                        method,
                        u,
                        optional_bytes(content),
                        optional_entries(headers),
                    ),
                    Err(_) => false,
                },
                Err(e) => url_of_search(regex_groups(url_pattern(), url@, url_group_names()))
                    == Err::<UrlModel, UrlError>(e),
            },
    {
        match Url::new(url) {
            Err(e) => Err(e),
            Ok(parts) => Ok(self.prepare(method, &parts, content, headers)),
        }
    }

    /// Prepares a `GET` request.
    pub fn get(&mut self, url: &str, extra_headers: Option<&HeaderMap>) -> (r: Result<
        PreparedRequest,
        UrlError,
    >)
        ensures
            *final(self) == *old(self),
            match r {
                Ok(p) => match url_of_search(regex_groups(url_pattern(), url@, url_group_names())) {
                    Ok(u) => prepared_for(
                        p,
                        old(self)@,
                        Methods::GET,
                        u,
                        None,
                        optional_entries(extra_headers),
                    ),
                    Err(_) => false,
                },
                Err(e) => url_of_search(regex_groups(url_pattern(), url@, url_group_names()))
                    == Err::<UrlModel, UrlError>(e),
            },
    {
        self.request(Methods::GET, url, None, extra_headers)
    }

    /// Prepares a `POST` request.
    pub fn post(
        &mut self,
        url: &str,
        content: Option<Vec<u8>>,
        extra_headers: Option<&HeaderMap>,
    ) -> (r: Result<PreparedRequest, UrlError>)
        ensures
            *final(self) == *old(self),
            match r {
                Ok(p) => match url_of_search(regex_groups(url_pattern(), url@, url_group_names())) {
                    Ok(u) => prepared_for(
                        p,
                        old(self)@,
                        Methods::POST,
                        u,
                        optional_bytes(content),
                        optional_entries(extra_headers),
                    ),
                    Err(_) => false,
                },
                Err(e) => url_of_search(regex_groups(url_pattern(), url@, url_group_names()))
                    == Err::<UrlModel, UrlError>(e),
            },
    {
        self.request(Methods::POST, url, content, extra_headers)
    }
}

/// The headers of a prepared request: a header of the call wins; then
/// `Host` is the URL's domain; every other name has the client's value.
pub proof fn lemma_request_headers(
    base: Entries,
    method: Methods,
    url: UrlModel,
    content: Option<Seq<u8>>,
    extra: Entries,
    name: Seq<char>,
)
    requires
        distinct_names(base),
        distinct_names(extra),
    ensures
        distinct_names(request_model(base, method, url, content, extra).headers),
        lookup(request_model(base, method, url, content, extra).headers, name) == (if lookup(
            extra,
            name,
        ) is Some {
            lookup(extra, name)
        } else if name == "Host"@ {
            Some(url.domain)
        } else {
            lookup(base, name)
        }),
{
    let none = Seq::<(Seq<char>, Seq<char>)>::empty();
    let own = merge(none, base);
    let hosted = upsert(own, "Host"@, url.domain);
    lemma_merge_distinct(none, base);
    lemma_merge_lookup(none, base, name);
    lemma_upsert(own, "Host"@, url.domain);
    lemma_merge_distinct(hosted, extra);
    lemma_merge_lookup(hosted, extra, name);
}

} // verus!
