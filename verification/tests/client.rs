use http_core::error::InvalidUri;
use http_core::head::{BodySize, Version};
use http_core::ws::expect_status;
use http_core::octets::unpack_octets_4;
use http_core::redirect::{describes_body, merge_location, redirect_kind, redirect_method, Redirect};
use http_core::uri::UriParts;

#[test]
fn test_unpack_octets_4() {
    let buf: [u8; 4] = [0, 0, 0, 1];
    assert_eq!(1u32, unpack_octets_4(&buf, 0));
}

#[test]
fn unpack_octets_at_offset() {
    let buf: [u8; 6] = [9, 0x12, 0x34, 0x56, 0x78, 9];
    assert_eq!(0x12345678u32, unpack_octets_4(&buf, 1));
    let buf: [u8; 4] = [0xff, 0xff, 0xff, 0xff];
    assert_eq!(u32::MAX, unpack_octets_4(&buf, 0));
}

#[test]
fn redirect_kinds() {
    assert_eq!(redirect_kind(301), Redirect::Rewrite);
    assert_eq!(redirect_kind(302), Redirect::Rewrite);
    assert_eq!(redirect_kind(303), Redirect::Rewrite);
    assert_eq!(redirect_kind(307), Redirect::Preserve);
    assert_eq!(redirect_kind(308), Redirect::Preserve);
    assert_eq!(redirect_kind(300), Redirect::Final);
    assert_eq!(redirect_kind(304), Redirect::Final);
    assert_eq!(redirect_kind(418), Redirect::Final);
    assert_eq!(redirect_kind(200), Redirect::Final);
}

#[test]
fn redirect_methods() {
    assert_eq!(redirect_method(Redirect::Rewrite, b"POST"), b"GET");
    assert_eq!(redirect_method(Redirect::Rewrite, b"HEAD"), b"HEAD");
    assert_eq!(redirect_method(Redirect::Rewrite, b"GET"), b"GET");
    assert_eq!(redirect_method(Redirect::Preserve, b"POST"), b"POST");
    assert_eq!(redirect_method(Redirect::Final, b"PUT"), b"PUT");
}

#[test]
fn redirect_drops_body_headers() {
    assert!(describes_body(b"transfer-encoding"));
    assert!(describes_body(b"content-encoding"));
    assert!(describes_body(b"content-type"));
    assert!(describes_body(b"content-length"));
    assert!(!describes_body(b"content-language"));
    assert!(!describes_body(b"host"));
}

#[test]
fn redirect() {
    let base = UriParts::parse("http://foo.bar/foo").unwrap();
    let location = UriParts::parse("/bar").unwrap();
    assert_eq!(redirect_kind(303), Redirect::Rewrite);
    let target = merge_location(base, location).ok().unwrap();
    assert_eq!(target.scheme.as_deref(), Some(&b"http"[..]));
    assert_eq!(target.authority.as_deref(), Some(&b"foo.bar"[..]));
    assert_eq!(target.path_and_query, b"/bar");
    assert_eq!(redirect_kind(418), Redirect::Final);
}

#[test]
fn redirect_to_another_server() {
    let base = UriParts::parse("http://foo.bar/foo?a=1").unwrap();
    let location = UriParts::parse("https://other.example/x?y=z").unwrap();
    let target = merge_location(base, location).ok().unwrap();
    assert_eq!(target.scheme.as_deref(), Some(&b"https"[..]));
    assert_eq!(target.authority.as_deref(), Some(&b"other.example"[..]));
    assert_eq!(target.path_and_query, b"/x?y=z");
}

#[test]
fn redirect_without_path() {
    let base = UriParts::parse("http://foo.bar/foo").unwrap();
    let location = UriParts::parse("other.example").unwrap();
    assert!(location.path_and_query.is_none());
    assert_eq!(merge_location(base, location).err(), Some(InvalidUri::MissingPathQuery));
}

#[test]
fn body_size_from_hint() {
    assert_eq!(BodySize::none_hint(), (usize::MAX, Some(0)));
    assert_eq!(BodySize::from_hint(usize::MAX, Some(0)), BodySize::NoBody);
    assert_eq!(BodySize::from_hint(0, Some(0)), BodySize::Sized(0));
    assert_eq!(BodySize::from_hint(0, Some(7)), BodySize::Sized(7));
    assert_eq!(BodySize::from_hint(7, Some(7)), BodySize::Sized(7));
    assert_eq!(BodySize::from_hint(0, None), BodySize::Stream);
    assert_eq!(BodySize::from_hint(usize::MAX, None), BodySize::Stream);
}

#[test]
fn websocket_answer_status() {
    assert_eq!(expect_status(Version::Http11, 101), None);
    assert_eq!(expect_status(Version::Http11, 200), Some(101));
    assert_eq!(expect_status(Version::Http2, 200), None);
    assert_eq!(expect_status(Version::Http2, 101), Some(200));
    assert_eq!(expect_status(Version::Http10, 404), None);
    assert_eq!(expect_status(Version::Http3, 101), None);
}
