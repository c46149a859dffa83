use verdun::https::headers::HeaderMap;
use verdun::https::response::HttpResponseError;

#[test]
fn new_collection_is_empty() {
    let h = HeaderMap::new();
    assert_eq!(h.len(), 0);
    assert_eq!(h.get("Host"), None);
}

#[test]
fn insert_then_get() {
    let mut h = HeaderMap::new();
    h.insert("Host", "example.com");
    h.insert("Accept", "*/*");
    assert_eq!(h.len(), 2);
    assert_eq!(h.get("Host"), Some("example.com"));
    assert_eq!(h.get("Accept"), Some("*/*"));
    assert_eq!(h.get("host"), None);
    assert_eq!(h.name_at(0), "Host");
    assert_eq!(h.value_at(0), "example.com");
    assert_eq!(h.name_at(1), "Accept");
    assert_eq!(h.value_at(1), "*/*");
}

#[test]
fn last_write_wins_and_keeps_the_place() {
    let mut h = HeaderMap::new();
    h.insert("A", "1");
    h.insert("B", "2");
    h.insert("A", "3");
    assert_eq!(h.len(), 2);
    assert_eq!(h.name_at(0), "A");
    assert_eq!(h.value_at(0), "3");
    assert_eq!(h.get("B"), Some("2"));
}

#[test]
fn extend_writes_every_entry_in_order() {
    let mut base = HeaderMap::new();
    base.insert("User-Agent", "x");
    base.insert("Accept", "a");
    let mut extra = HeaderMap::new();
    extra.insert("Accept", "b");
    extra.insert("Connection", "close");
    base.extend(&extra);
    assert_eq!(base.len(), 3);
    assert_eq!(base.get("User-Agent"), Some("x"));
    assert_eq!(base.get("Accept"), Some("b"));
    assert_eq!(base.get("Connection"), Some("close"));
    assert_eq!(base.name_at(2), "Connection");
    assert_eq!(extra.len(), 2);
}

#[test]
fn names_that_are_not_ascii_are_told_apart() {
    let mut h = HeaderMap::new();
    h.insert("Ä", "1");
    h.insert("A", "2");
    h.insert("Ä", "3");
    assert_eq!(h.len(), 2);
    assert_eq!(h.get("Ä"), Some("3"));
    assert_eq!(h.get("A"), Some("2"));
}

#[test]
fn response_errors_have_messages() {
    assert_eq!(HttpResponseError::Empty.message(), "the given byte slice was empty");
    assert_eq!(HttpResponseError::NoHeaders.message(), "no headers were found");
    assert_eq!(HttpResponseError::InvalidHeader.message(), "invalid header");
    assert_eq!(
        HttpResponseError::NumberParse.message(),
        "there was a error during parsing a number"
    );
    assert_eq!(
        HttpResponseError::TextDecode.message(),
        "there was an error with parsing a string"
    );
    assert_eq!(HttpResponseError::InvalidStatusLine.message(), "the status line is invalid");
    assert_eq!(
        HttpResponseError::UnsupportedEncoding.message(),
        "the transfer encoding is not supported"
    );
}
