use verdun::https::url::{Url, UrlError};

#[test]
fn url_splits_into_its_parts() {
    let u = Url::new("https://www.rust-lang.org/learn/get-started?lang=en").unwrap();
    assert_eq!(u.scheme(), "https");
    assert_eq!(u.domain(), "www.rust-lang.org");
    assert_eq!(u.route(), "/learn/get-started");
    assert_eq!(u.query(), "?lang=en");
    assert_eq!(u.port(), 443);
    assert_eq!(u.socket_addr(), "www.rust-lang.org:443");
}

#[test]
fn url_without_query_has_an_empty_one() {
    let u = Url::new("http://example.com/").unwrap();
    assert_eq!(u.scheme(), "http");
    assert_eq!(u.domain(), "example.com");
    assert_eq!(u.route(), "/");
    assert_eq!(u.query(), "");
    assert_eq!(u.port(), 80);
    assert_eq!(u.socket_addr(), "example.com:80");
}

#[test]
fn scheme_decides_the_port() {
    assert_eq!(Url::new("ftp://files.example/pub").unwrap().port(), 21);
    assert_eq!(Url::new("gopher://old.example/x").unwrap().port(), 1919);
    assert_eq!(Url::new("HTTPS://upper.example/x").unwrap().port(), 1919);
    assert_eq!(Url::new("gopher://old.example/x").unwrap().socket_addr(), "old.example:1919");
}

#[test]
fn text_without_scheme_separator_is_no_url() {
    assert_eq!(Url::new("www.rust-lang.org/learn").unwrap_err(), UrlError::Invalid);
    assert_eq!(Url::new("").unwrap_err(), UrlError::Invalid);
}

#[test]
fn url_without_a_route_is_no_url() {
    assert_eq!(Url::new("https://example.com").unwrap_err(), UrlError::Invalid);
}

#[test]
fn from_captures_reads_four_groups() {
    let u = Url::from_captures(Some(vec![Some("https"), Some("a.b"), Some("/r"), Some("?q")]))
        .unwrap();
    assert_eq!(u.scheme(), "https");
    assert_eq!(u.domain(), "a.b");
    assert_eq!(u.route(), "/r");
    assert_eq!(u.query(), "?q");
    assert_eq!(u.port(), 443);
}

#[test]
fn from_captures_fills_in_route_and_query() {
    let u = Url::from_captures(Some(vec![Some("http"), Some("a.b"), None, None])).unwrap();
    assert_eq!(u.route(), "/");
    assert_eq!(u.query(), "");
    assert_eq!(u.socket_addr(), "a.b:80");
}

#[test]
fn from_captures_names_what_is_missing() {
    assert_eq!(Url::from_captures(None).unwrap_err(), UrlError::Invalid);
    assert_eq!(
        Url::from_captures(Some(vec![None, Some("a.b"), Some("/"), None])).unwrap_err(),
        UrlError::NoScheme
    );
    assert_eq!(
        Url::from_captures(Some(vec![Some("http"), None, Some("/"), None])).unwrap_err(),
        UrlError::NoDomain
    );
    assert_eq!(
        Url::from_captures(Some(vec![Some("http"), Some("a.b"), Some("/")])).unwrap_err(),
        UrlError::Invalid
    );
}

#[test]
fn url_errors_have_messages() {
    assert_eq!(UrlError::Invalid.message(), "Invalid URL");
    assert_eq!(UrlError::NoScheme.message(), "Schema not found, url invalid.");
    assert_eq!(UrlError::NoDomain.message(), "Domain not found!");
    assert_eq!(UrlError::Pattern.message(), "the URL pattern is invalid");
}
