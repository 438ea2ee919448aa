use http_core::error::InvalidUri;
use http_core::uri::{Uri, UriParts};

#[test]
fn uri_parse() {
    let err = Uri::try_parse(UriParts::parse("http2://example.com").unwrap())
        .err()
        .unwrap();
    assert!(matches!(err, InvalidUri::UnknownScheme));

    let err = Uri::try_parse(UriParts::parse("/hello/world").unwrap()).err().unwrap();
    assert!(matches!(err, InvalidUri::MissingAuthority));

    let err = Uri::try_parse(UriParts::parse("example.com").unwrap()).err().unwrap();
    assert!(matches!(err, InvalidUri::MissingScheme));

    assert!(Uri::try_parse(UriParts::parse("http://example.com").unwrap()).is_ok());

    let uri = Uri::try_parse(UriParts::parse("unix://tmp/foo.socket").unwrap())
        .ok()
        .unwrap();
    assert_eq!(uri.scheme_str().unwrap(), b"unix");
    assert_eq!(uri.host().unwrap(), b"tmp");
    assert_eq!(uri.path(), b"/foo.socket");
}

#[test]
fn uri_kinds_by_scheme() {
    assert!(matches!(Uri::parse("http://example.com/a"), Ok(Uri::Tcp(_))));
    assert!(matches!(Uri::parse("ws://example.com/a"), Ok(Uri::Tcp(_))));
    assert!(matches!(Uri::parse("https://example.com/a"), Ok(Uri::Tls(_))));
    assert!(matches!(Uri::parse("wss://example.com/a"), Ok(Uri::Tls(_))));
    assert!(matches!(Uri::parse("unix://tmp/foo.socket"), Ok(Uri::Unix(_))));
}

#[test]
fn uri_text_that_is_no_uri() {
    assert!(UriParts::parse("http://exa mple.com").is_none());
    assert!(matches!(
        Uri::parse("http://exa mple.com"),
        Err(InvalidUri::ReasonUnknown)
    ));
}

#[test]
fn uri_parts_are_those_of_the_text() {
    let parts = UriParts::parse("https://user@example.com:8443/a/b?c=d").unwrap();
    assert_eq!(parts.scheme.as_deref(), Some(&b"https"[..]));
    assert_eq!(parts.authority.as_deref(), Some(&b"user@example.com:8443"[..]));
    assert_eq!(parts.host.as_deref(), Some(&b"example.com"[..]));
    assert_eq!(parts.path, b"/a/b");
    assert_eq!(parts.path_and_query.as_deref(), Some(&b"/a/b?c=d"[..]));
}
