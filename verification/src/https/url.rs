//! Splitting a URL into scheme, domain, route and query.

use crate::https::number::{decimal_text, lemma_digits_are_text, push_decimal};
use crate::https::text::{lemma_text_of_bytes, str_eq, utf8_text};
use vstd::prelude::*;
use vstd::string::StringExecFns;

verus! {

/// The error of a pattern that does not compile, held as an opaque value.
#[verifier::external_type_specification]
#[verifier::external_body]
pub struct ExRegexError(regex::Error);

/// What the regular expression `pattern` captures in `text` for the groups
/// named `names`: nothing at all where the pattern does not compile; no match
/// where the text holds none; else, of the leftmost match and for each name
/// in order, the text of that group where it took part in the match.
pub uninterp spec fn regex_groups(pattern: Seq<char>, text: Seq<char>, names: Seq<Seq<char>>) -> Option<
    Option<Seq<Option<Seq<char>>>>,
>;

/// The text of each of some string slices.
pub open spec fn texts_of(names: Seq<&str>) -> Seq<Seq<char>> {
    Seq::new(names.len(), |i: int| names[i]@)
}

/// The text of each group of a match.
pub open spec fn groups_of(groups: Seq<Option<&str>>) -> Seq<Option<Seq<char>>> {
    Seq::new(
        groups.len(),
        |i: int|
            match groups[i] {
                Some(s) => Some(s@),
                None => None,
            },
    )
}

/// What a search returned, as mathematical values.
pub open spec fn search_of(r: Result<Option<Vec<Option<&str>>>, regex::Error>) -> Option<
    Option<Seq<Option<Seq<char>>>>,
> {
    match r {
        Err(_) => None,
        Ok(None) => Some(None),
        Ok(Some(groups)) => Some(Some(groups_of(groups@))),
    }
}

/// Compiles `pattern` with `regex::Regex::new`, searches `text` with
/// `Regex::captures`, and reads each named group with `Captures::name` and
/// `Match::as_str`. The contract names the outcome, which depends on the
/// three arguments alone, and says that a match has one entry for each name.
#[verifier::external_body]
fn search_groups<'a>(pattern: &str, text: &'a str, names: &[&str]) -> (r: Result<
    Option<Vec<Option<&'a str>>>,
    regex::Error,
>)
    ensures
        search_of(r) == regex_groups(pattern@, text@, texts_of(names@)),
        match r {
            Ok(Some(groups)) => groups@.len() == names@.len(),
            _ => true,
        },
{
    let re = regex::Regex::new(pattern)?;
    Ok(re.captures(text).map(|c| names.iter().map(|n| c.name(n).map(|m| m.as_str())).collect()))
}

/// Why a URL could not be split.
#[derive(Clone, Copy, Debug, PartialEq, Eq, Structural)]
pub enum UrlError {
    /// The pattern that splits URLs did not compile.
    Pattern,
    /// The text is no URL.
    Invalid,
    /// The URL has no scheme.
    NoScheme,
    /// The URL has no domain.
    NoDomain,
}

/// What an error says to a reader.
pub open spec fn url_message_of(e: UrlError) -> Seq<char> {
    match e {
        UrlError::Pattern => "the URL pattern is invalid"@,
        UrlError::Invalid => "Invalid URL"@,
        UrlError::NoScheme => "Schema not found, url invalid."@,
        UrlError::NoDomain => "Domain not found!"@,
    }
}

impl UrlError {
    /// What the error says to a reader.
    pub fn message(&self) -> (r: &'static str)
        ensures
            r@ == url_message_of(*self),
    {
        match self {
            UrlError::Pattern => "the URL pattern is invalid",
            UrlError::Invalid => "Invalid URL",
            UrlError::NoScheme => "Schema not found, url invalid.",
            UrlError::NoDomain => "Domain not found!",
        }
    }
}

/// What a URL holds, as mathematical values.
pub ghost struct UrlModel {
    pub route: Seq<char>,
    pub domain: Seq<char>,
    pub scheme: Seq<char>,
    pub port: u16,
    pub query: Seq<char>,
}

/// The parts of a URL.
#[derive(Debug)]
pub struct Url<'a> {
    route: &'a str,
    domain: &'a str,
    scheme: &'a str,
    port: u16,
    query: &'a str,
}

impl<'a> View for Url<'a> {
    type V = UrlModel;

    closed spec fn view(&self) -> UrlModel {
        UrlModel {
            route: self.route@,
            domain: self.domain@,
            scheme: self.scheme@,
            port: self.port,
            query: self.query@,
        }
    }
}

/// The pattern that splits a URL.
pub open spec fn url_pattern() -> Seq<char> {
    r"(?<scheme>.*?)://(?<domain>.*?[^\\]?)(?<route>/.*?[^\?]*)(?<query>.*)"@
}

/// The names of the pattern's groups, in the order in which they are read.
pub open spec fn url_group_names() -> Seq<Seq<char>> {
    seq!["scheme"@, "domain"@, "route"@, "query"@]
}

/// The port that a scheme stands for.
pub open spec fn scheme_port(scheme: Seq<char>) -> u16 {
    if scheme == "http"@ {
        80
    } else if scheme == "https"@ {
        443
    } else if scheme == "ftp"@ {
        21
    } else {
        1919
    }
}

/// The URL that the groups of a match give: scheme and domain must have
/// taken part; the route is `/` and the query empty where they did not.
pub open spec fn url_of_groups(found: Option<Seq<Option<Seq<char>>>>) -> Result<UrlModel, UrlError> {
    match found {
        None => Err(UrlError::Invalid),
        Some(groups) => if groups.len() != 4 {
            Err(UrlError::Invalid)
        } else if groups[0] is None {
            Err(UrlError::NoScheme)
        } else if groups[1] is None {
            Err(UrlError::NoDomain)
        } else {
            Ok(
                UrlModel {
                    route: match groups[2] {
                        Some(r) => r,
                        None => "/"@,
                    },
                    domain: groups[1]->0,
                    scheme: groups[0]->0,
                    port: scheme_port(groups[0]->0),
                    query: match groups[3] {
                        Some(q) => q,
                        None => Seq::empty(),
                    },
                },
            )
        },
    }
}

/// The URL that a search with the URL pattern gives.
pub open spec fn url_of_search(searched: Option<Option<Seq<Option<Seq<char>>>>>) -> Result<
    UrlModel,
    UrlError,
> {
    match searched {
        None => Err(UrlError::Pattern),
        Some(found) => url_of_groups(found),
    }
}

/// The view of the groups of a match.
pub open spec fn found_of(found: Option<Vec<Option<&str>>>) -> Option<Seq<Option<Seq<char>>>> {
    match found {
        None => None,
        Some(groups) => Some(groups_of(groups@)),
    }
}

/// The text `host:port` under which a URL's server is reached.
pub open spec fn socket_addr_of(u: UrlModel) -> Seq<char> {
    u.domain + ":"@ + decimal_text(u.port as nat)
}

/// The port that a scheme stands for.
fn port_of_scheme(scheme: &str) -> (r: u16)
    ensures
        r == scheme_port(scheme@),
{
    if str_eq(scheme, "http") {
        80
    } else if str_eq(scheme, "https") {
        443
    } else if str_eq(scheme, "ftp") {
        21
    } else {
        1919
    }
}

impl<'a> Url<'a> {
    /// Builds a URL from the groups that the URL pattern captured, in the
    /// order scheme, domain, route, query.
    pub fn from_captures(found: Option<Vec<Option<&'a str>>>) -> (r: Result<Url<'a>, UrlError>)
        ensures
            match r {
                Ok(url) => url_of_groups(found_of(found)) == Ok::<UrlModel, UrlError>(url@),
                Err(e) => url_of_groups(found_of(found)) == Err::<UrlModel, UrlError>(e),
            },
    {
        let groups = match found {
            None => {
                return Err(UrlError::Invalid);
            },
            Some(g) => g,
        };
        if groups.len() != 4 {
            return Err(UrlError::Invalid);
        }
        let scheme: &'a str = match groups[0] {
            None => {
                return Err(UrlError::NoScheme);
            },
            Some(s) => s,
        };
        let domain: &'a str = match groups[1] {
            None => {
                return Err(UrlError::NoDomain);
            },
            Some(s) => s,
        };
        let route: &'a str = match groups[2] {
            None => "/",
            Some(s) => s,
        };
        let query: &'a str = match groups[3] {
            None => {
                proof {
                    reveal_strlit("");
                }
                assert(""@ =~= Seq::<char>::empty());
                ""
            },
            Some(s) => s,
        };
        let port = port_of_scheme(scheme);
        Ok(Url { route, domain, scheme, port, query })
    }

    /// Splits a URL of the form `scheme://domain/route?query`.
    pub fn new(u: &'a str) -> (r: Result<Url<'a>, UrlError>)
        ensures
            match r {
                Ok(url) => url_of_search(regex_groups(url_pattern(), u@, url_group_names()))
                    == Ok::<UrlModel, UrlError>(url@),
                Err(e) => url_of_search(regex_groups(url_pattern(), u@, url_group_names()))
                    == Err::<UrlModel, UrlError>(e),
            },
    {
        let names: [&str; 4] = ["scheme", "domain", "route", "query"];
        assert(texts_of(names@) =~= url_group_names());
        let searched = search_groups(
            r"(?<scheme>.*?)://(?<domain>.*?[^\\]?)(?<route>/.*?[^\?]*)(?<query>.*)",
            u,
            names.as_slice(),
        );
        match searched {
            Err(_) => Err(UrlError::Pattern),
            Ok(found) => Url::from_captures(found),
        }
    }

    /// The text `host:port` under which the URL's server is reached.
    pub fn socket_addr(&self) -> (r: String)
        ensures
            r@ == socket_addr_of(self@),
    {
        let mut digits: Vec<u8> = Vec::new();
        push_decimal(&mut digits, self.port as u64);
        proof {
            lemma_digits_are_text(self.port as nat);
        }
        let mut addr: String = self.domain.to_owned();
        addr.append(":");
        match utf8_text(digits.as_slice()) {
            Some(text) => {
                proof {
                    lemma_text_of_bytes(text@, digits@);
                }
                addr.append(text);
            },
            None => {},
        }
        addr
    }

    /// The route, from its first slash up to the query.
    pub fn route(&self) -> (r: &'a str)
        ensures
            r@ == self@.route,
    {
        self.route
    }

    /// The domain.
    pub fn domain(&self) -> (r: &'a str)
        ensures
            r@ == self@.domain,
    {
        self.domain
    }

    /// The query, with its question mark.
    pub fn query(&self) -> (r: &'a str)
        ensures
            r@ == self@.query,
    {
        self.query
    }

    /// The scheme.
    pub fn scheme(&self) -> (r: &'a str)
        ensures
            r@ == self@.scheme,
    {
        self.scheme
    }

    /// The port that the scheme stands for.
    pub fn port(&self) -> (r: u16)
        ensures
            r == self@.port,
    {
        self.port
    }
}

} // verus!
