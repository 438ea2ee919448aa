use bytes::BytesMut;
use http::header::{HeaderMap, HeaderValue, CONNECTION, CONTENT_LENGTH, DATE, TRANSFER_ENCODING, UPGRADE};
use http_core::coding::TransferCoding;
use http_core::context::Context;
use http_core::encode::{
    encode_continue, encode_version_status_reason, entries_bound, head_room, heed_header,
    try_remove_body, write_head, write_headers, write_length_header, write_status_line,
    ResponseParts, Settled,
};
use http_core::error::ProtoError;
use http_core::head::{BodySize, HeaderEntry, StatusCode, Version};

const DATE_TEXT: &[u8] = b"Thu, 01 Jan 1970 00:00:00 GMT";

fn ctx() -> Context<64> {
    Context::new(DATE_TEXT.to_vec())
}

fn parts(code: u16, headers: HeaderMap) -> ResponseParts {
    ResponseParts { status: StatusCode::from_u16(code).unwrap(), version: Version::Http11, headers }
}

fn text(buf: &BytesMut) -> String {
    String::from_utf8(buf.to_vec()).unwrap()
}

#[test]
fn append_header() {
    let mut ctx = ctx();
    let mut headers = HeaderMap::new();
    headers.insert(CONNECTION, HeaderValue::from_static("keep-alive"));
    headers.append(CONNECTION, HeaderValue::from_static("upgrade"));

    let mut buf = BytesMut::new();
    ctx.encode_head(parts(200, headers), BodySize::Sized(0), &mut buf).unwrap();

    let mut header = [httparse::EMPTY_HEADER; 8];
    let mut res = httparse::Response::new(&mut header);

    let httparse::Status::Complete(_) = res.parse(buf.as_ref()).unwrap() else {
        panic!("failed to parse response")
    };

    let mut seen = false;
    for h in header {
        if h.name == "connection" {
            assert_eq!(h.value, b"keep-alive, upgrade");
            seen = true;
        }
    }
    assert!(seen);
}

#[test]
fn head_of_empty_ok_response() {
    let mut ctx = ctx();
    let mut buf = BytesMut::new();
    let coding = ctx.encode_head(parts(200, HeaderMap::new()), BodySize::Sized(0), &mut buf).unwrap();
    assert_eq!(
        text(&buf),
        "HTTP/1.1 200 OK\r\ncontent-length: 0\r\ndate: Thu, 01 Jan 1970 00:00:00 GMT\r\n\r\n"
    );
    assert_eq!(coding, TransferCoding::Length(0));
    assert!(!ctx.is_connection_closed());
}

#[test]
fn head_is_appended_to_what_the_buffer_holds() {
    let mut ctx = ctx();
    let mut buf = BytesMut::from(&b"earlier"[..]);
    ctx.encode_head(parts(204, HeaderMap::new()), BodySize::NoBody, &mut buf).unwrap();
    assert_eq!(
        text(&buf),
        "earlierHTTP/1.1 204 No Content\r\ndate: Thu, 01 Jan 1970 00:00:00 GMT\r\n\r\n"
    );
}

#[test]
fn head_of_sized_response() {
    let mut ctx = ctx();
    let mut buf = BytesMut::new();
    let coding = ctx.encode_head(parts(404, HeaderMap::new()), BodySize::Sized(1234), &mut buf).unwrap();
    assert_eq!(
        text(&buf),
        "HTTP/1.1 404 Not Found\r\ncontent-length: 1234\r\ndate: Thu, 01 Jan 1970 00:00:00 GMT\r\n\r\n"
    );
    assert_eq!(coding, TransferCoding::Length(1234));
}

#[test]
fn head_of_streamed_response() {
    let mut ctx = ctx();
    let mut buf = BytesMut::new();
    let coding = ctx.encode_head(parts(200, HeaderMap::new()), BodySize::Stream, &mut buf).unwrap();
    assert_eq!(
        text(&buf),
        "HTTP/1.1 200 OK\r\ntransfer-encoding: chunked\r\ndate: Thu, 01 Jan 1970 00:00:00 GMT\r\n\r\n"
    );
    assert_eq!(coding, TransferCoding::encode_chunked());
}

#[test]
fn head_without_body_has_no_framing_header() {
    let mut ctx = ctx();
    let mut buf = BytesMut::new();
    let coding = ctx.encode_head(parts(200, HeaderMap::new()), BodySize::NoBody, &mut buf).unwrap();
    assert_eq!(text(&buf), "HTTP/1.1 200 OK\r\ndate: Thu, 01 Jan 1970 00:00:00 GMT\r\n\r\n");
    assert_eq!(coding, TransferCoding::Eof);
}

#[test]
fn head_on_closing_connection() {
    let mut ctx = ctx();
    ctx.set_close();
    let mut headers = HeaderMap::new();
    headers.insert(CONNECTION, HeaderValue::from_static("keep-alive"));
    let mut buf = BytesMut::new();
    ctx.encode_head(parts(200, headers), BodySize::Sized(2), &mut buf).unwrap();
    assert_eq!(
        text(&buf),
        "HTTP/1.1 200 OK\r\ncontent-length: 2\r\nconnection: close\r\ndate: Thu, 01 Jan 1970 00:00:00 GMT\r\n\r\n"
    );
    assert!(ctx.is_connection_closed());
}

#[test]
fn connection_close_header_marks_the_connection() {
    let mut ctx = ctx();
    let mut headers = HeaderMap::new();
    headers.insert(CONNECTION, HeaderValue::from_static("Close"));
    let mut buf = BytesMut::new();
    ctx.encode_head(parts(200, headers), BodySize::NoBody, &mut buf).unwrap();
    assert!(ctx.is_connection_closed());
    assert_eq!(
        text(&buf),
        "HTTP/1.1 200 OK\r\nconnection: Close\r\nconnection: close\r\ndate: Thu, 01 Jan 1970 00:00:00 GMT\r\n\r\n"
    );
}

#[test]
fn content_length_header_settles_framing() {
    let mut ctx = ctx();
    let mut headers = HeaderMap::new();
    headers.insert(CONTENT_LENGTH, HeaderValue::from_static("5"));
    let mut buf = BytesMut::new();
    let coding = ctx.encode_head(parts(200, headers), BodySize::Stream, &mut buf).unwrap();
    assert_eq!(
        text(&buf),
        "HTTP/1.1 200 OK\r\ncontent-length: 5\r\ndate: Thu, 01 Jan 1970 00:00:00 GMT\r\n\r\n"
    );
    assert_eq!(coding, TransferCoding::Length(5));
}

#[test]
fn transfer_encoding_header_settles_framing() {
    let mut ctx = ctx();
    let mut headers = HeaderMap::new();
    headers.insert(TRANSFER_ENCODING, HeaderValue::from_static("gzip, Chunked"));
    let mut buf = BytesMut::new();
    let coding = ctx.encode_head(parts(200, headers), BodySize::Sized(9), &mut buf).unwrap();
    assert_eq!(
        text(&buf),
        "HTTP/1.1 200 OK\r\ntransfer-encoding: gzip, Chunked\r\ndate: Thu, 01 Jan 1970 00:00:00 GMT\r\n\r\n"
    );
    assert_eq!(coding, TransferCoding::encode_chunked());
}

#[test]
fn date_header_suppresses_the_date() {
    let mut ctx = ctx();
    let mut headers = HeaderMap::new();
    headers.insert(DATE, HeaderValue::from_static("Fri, 02 Jan 1970 00:00:00 GMT"));
    let mut buf = BytesMut::new();
    ctx.encode_head(parts(200, headers), BodySize::NoBody, &mut buf).unwrap();
    assert_eq!(text(&buf), "HTTP/1.1 200 OK\r\ndate: Fri, 02 Jan 1970 00:00:00 GMT\r\n\r\n");
}

#[test]
fn bad_content_length_header_is_refused_and_nothing_is_written() {
    let mut ctx = ctx();
    let mut headers = HeaderMap::new();
    headers.insert("x-first", HeaderValue::from_static("1"));
    headers.insert(CONTENT_LENGTH, HeaderValue::from_static("5x"));
    let mut buf = BytesMut::from(&b"earlier"[..]);
    let r = ctx.encode_head(parts(200, headers), BodySize::NoBody, &mut buf);
    assert_eq!(r, Err(ProtoError::Header));
    assert_eq!(&buf[..], b"earlier");
    assert!(!ctx.is_connection_closed());
}

#[test]
fn informational_status_is_refused() {
    let mut ctx = ctx();
    let mut buf = BytesMut::new();
    let r = ctx.encode_head(parts(103, HeaderMap::new()), BodySize::NoBody, &mut buf);
    assert_eq!(r, Err(ProtoError::Status));
    assert!(buf.is_empty());
    let r = ctx.encode_head(parts(100, HeaderMap::new()), BodySize::NoBody, &mut buf);
    assert_eq!(r, Err(ProtoError::Status));
}

#[test]
fn switching_protocols_has_no_framing_header() {
    let mut ctx = ctx();
    let mut headers = HeaderMap::new();
    headers.insert(UPGRADE, HeaderValue::from_static("websocket"));
    let mut buf = BytesMut::new();
    let coding = ctx.encode_head(parts(101, headers), BodySize::Stream, &mut buf).unwrap();
    assert_eq!(
        text(&buf),
        "HTTP/1.1 101 Switching Protocols\r\nupgrade: websocket\r\ndate: Thu, 01 Jan 1970 00:00:00 GMT\r\n\r\n"
    );
    assert_eq!(coding, TransferCoding::Upgrade);
}

#[test]
fn success_to_connect_has_no_framing_header() {
    let mut ctx = ctx();
    ctx.connect_method = true;
    let mut buf = BytesMut::new();
    let coding = ctx.encode_head(parts(200, HeaderMap::new()), BodySize::Sized(3), &mut buf).unwrap();
    assert_eq!(text(&buf), "HTTP/1.1 200 OK\r\ndate: Thu, 01 Jan 1970 00:00:00 GMT\r\n\r\n");
    assert_eq!(coding, TransferCoding::Eof);
}

#[test]
fn response_to_head_keeps_framing_header_and_has_no_body() {
    let mut ctx = ctx();
    ctx.head_method = true;
    let mut buf = BytesMut::new();
    let coding = ctx.encode_head(parts(200, HeaderMap::new()), BodySize::Sized(5), &mut buf).unwrap();
    assert_eq!(
        text(&buf),
        "HTTP/1.1 200 OK\r\ncontent-length: 5\r\ndate: Thu, 01 Jan 1970 00:00:00 GMT\r\n\r\n"
    );
    assert_eq!(coding, TransferCoding::Eof);

    let mut buf = BytesMut::new();
    let coding = ctx.encode_head(parts(200, HeaderMap::new()), BodySize::Stream, &mut buf).unwrap();
    assert_eq!(
        text(&buf),
        "HTTP/1.1 200 OK\r\ntransfer-encoding: chunked\r\ndate: Thu, 01 Jan 1970 00:00:00 GMT\r\n\r\n"
    );
    assert_eq!(coding, TransferCoding::Eof);
}

#[test]
fn response_to_head_with_framing_header_of_its_own() {
    let mut ctx = ctx();
    ctx.head_method = true;
    let mut headers = HeaderMap::new();
    headers.insert(CONTENT_LENGTH, HeaderValue::from_static("7"));
    let mut buf = BytesMut::new();
    let coding = ctx.encode_head(parts(200, headers), BodySize::Sized(7), &mut buf).unwrap();
    assert_eq!(
        text(&buf),
        "HTTP/1.1 200 OK\r\ncontent-length: 7\r\ndate: Thu, 01 Jan 1970 00:00:00 GMT\r\n\r\n"
    );
    assert_eq!(coding, TransferCoding::Eof);
}

#[test]
fn encode_headers_writes_what_follows_the_status_line() {
    let mut ctx = ctx();
    let mut headers = HeaderMap::new();
    headers.insert("x-a", HeaderValue::from_static("1"));
    let mut buf = BytesMut::new();
    let coding = ctx.encode_headers(headers, BodySize::Sized(3), &mut buf, false).unwrap();
    assert_eq!(
        text(&buf),
        "\r\nx-a: 1\r\ncontent-length: 3\r\ndate: Thu, 01 Jan 1970 00:00:00 GMT\r\n\r\n"
    );
    assert_eq!(coding, TransferCoding::Length(3));

    let mut buf = BytesMut::new();
    let coding = ctx.encode_headers(HeaderMap::new(), BodySize::Sized(3), &mut buf, true).unwrap();
    assert_eq!(text(&buf), "\r\ndate: Thu, 01 Jan 1970 00:00:00 GMT\r\n\r\n");
    assert_eq!(coding, TransferCoding::Eof);
}

#[test]
fn status_lines() {
    let mut buf = BytesMut::new();
    encode_version_status_reason(&mut buf, Version::Http11, StatusCode::ok());
    assert_eq!(&buf[..], b"HTTP/1.1 200 OK");

    let mut buf = BytesMut::new();
    encode_version_status_reason(&mut buf, Version::Http10, StatusCode::ok());
    assert_eq!(&buf[..], b"HTTP/1.0 200 OK");

    let mut buf = BytesMut::new();
    encode_version_status_reason(&mut buf, Version::Http2, StatusCode::from_u16(418).unwrap());
    assert_eq!(&buf[..], b"HTTP/1.1 418 I'm a teapot");

    let mut buf = BytesMut::new();
    encode_version_status_reason(&mut buf, Version::Http11, StatusCode::from_u16(299).unwrap());
    assert_eq!(&buf[..], b"HTTP/1.1 299 <none>");

    let mut buf = BytesMut::new();
    write_status_line(&mut buf, Version::Http11, StatusCode::from_u16(500).unwrap(), Some("Oops"));
    assert_eq!(&buf[..], b"HTTP/1.1 500 Oops");
}

#[test]
fn status_code_range() {
    assert!(StatusCode::from_u16(99).is_none());
    assert!(StatusCode::from_u16(1000).is_none());
    assert_eq!(StatusCode::from_u16(100).unwrap().as_u16(), 100);
    assert_eq!(StatusCode::from_u16(999).unwrap().as_u16(), 999);
    assert!(StatusCode::from_u16(199).unwrap().is_informational());
    assert!(!StatusCode::from_u16(200).unwrap().is_informational());
    assert!(StatusCode::from_u16(299).unwrap().is_success());
    assert!(!StatusCode::from_u16(300).unwrap().is_success());
}

#[test]
fn length_header() {
    let mut buf = BytesMut::new();
    write_length_header(&mut buf, 0);
    write_length_header(&mut buf, 18446744073709551615);
    assert_eq!(&buf[..], &b"\r\ncontent-length: 0\r\ncontent-length: 18446744073709551615"[..]);
}

#[test]
fn remove_body_for_head_request() {
    let none: Vec<HeaderEntry> = Vec::new();
    let with_te = vec![HeaderEntry { name: Some(b"transfer-encoding".to_vec()), value: b"chunked".to_vec() }];
    let with_cl = vec![HeaderEntry { name: Some(b"content-length".to_vec()), value: b"4".to_vec() }];

    let mut buf = BytesMut::new();
    let mut size = BodySize::NoBody;
    try_remove_body(&mut buf, &none, &mut size);
    assert!(buf.is_empty());
    assert_eq!(size, BodySize::NoBody);

    let mut size = BodySize::Stream;
    try_remove_body(&mut buf, &with_te, &mut size);
    assert!(buf.is_empty());
    assert_eq!(size, BodySize::Stream);

    let mut size = BodySize::Sized(4);
    try_remove_body(&mut buf, &with_cl, &mut size);
    assert!(buf.is_empty());
    assert_eq!(size, BodySize::Sized(4));

    let mut size = BodySize::Stream;
    try_remove_body(&mut buf, &with_cl, &mut size);
    assert_eq!(&buf[..], b"\r\ntransfer-encoding: chunked");
    assert_eq!(size, BodySize::NoBody);

    let mut buf = BytesMut::new();
    let mut size = BodySize::Sized(4);
    try_remove_body(&mut buf, &with_te, &mut size);
    assert_eq!(&buf[..], b"\r\ncontent-length: 4");
    assert_eq!(size, BodySize::NoBody);
}

#[test]
fn expect_continue() {
    let mut buf = BytesMut::new();
    encode_continue(&mut buf);
    assert_eq!(&buf[..], b"HTTP/1.1 100 Continue\r\n\r\n");
}

#[test]
fn header_too_large() {
    let mut ctx = ctx();
    let mut buf = BytesMut::new();
    ctx.request_error(StatusCode::request_header_fields_too_large(), &mut buf);
    assert_eq!(
        &buf[..],
        &b"HTTP/1.1 431 Request Header Fields Too Large\r\ncontent-length: 0\r\nconnection: close\r\n\r\n"[..]
    );
    assert!(ctx.is_connection_closed());
}

#[test]
fn request_error_responses() {
    let mut ctx = ctx();
    let mut buf = BytesMut::new();
    ctx.request_error(StatusCode::request_timeout(), &mut buf);
    assert_eq!(
        &buf[..],
        &b"HTTP/1.1 408 Request Timeout\r\ncontent-length: 0\r\nconnection: close\r\n\r\n"[..]
    );
    let mut buf = BytesMut::new();
    ctx.request_error(StatusCode::bad_request(), &mut buf);
    assert_eq!(
        &buf[..],
        &b"HTTP/1.1 400 Bad Request\r\ncontent-length: 0\r\nconnection: close\r\n\r\n"[..]
    );
}

#[test]
fn header_cache_is_recycled() {
    let mut ctx = ctx();
    let mut headers = HeaderMap::with_capacity(32);
    headers.insert("x-a", HeaderValue::from_static("1"));
    let capacity = headers.capacity();
    let mut buf = BytesMut::new();
    ctx.encode_head(parts(200, headers), BodySize::NoBody, &mut buf).unwrap();
    let recycled = ctx.take_headers();
    assert!(recycled.is_empty());
    assert_eq!(recycled.capacity(), capacity);
    assert!(ctx.take_headers().is_empty());
}

fn entry(name: Option<&str>, value: &str) -> HeaderEntry {
    HeaderEntry { name: name.map(|n| n.as_bytes().to_vec()), value: value.as_bytes().to_vec() }
}

#[test]
fn head_from_entries() {
    let entries = vec![entry(Some("x-a"), "1"), entry(None, "2"), entry(Some("x-b"), "3")];
    let mut buf = BytesMut::new();
    let r = write_head(
        false,
        false,
        false,
        DATE_TEXT,
        Version::Http11,
        StatusCode::ok(),
        Some("OK"),
        &entries,
        BodySize::Sized(1),
        &mut buf,
    );
    assert_eq!(r, Ok((TransferCoding::Length(1), false)));
    assert_eq!(
        text(&buf),
        "HTTP/1.1 200 OK\r\nx-a: 1, 2\r\nx-b: 3\r\ncontent-length: 1\r\ndate: Thu, 01 Jan 1970 00:00:00 GMT\r\n\r\n"
    );
}

#[test]
fn head_without_reason_phrase() {
    let mut buf = BytesMut::new();
    let r = write_head(
        true,
        false,
        false,
        b"now",
        Version::Http10,
        StatusCode::from_u16(500).unwrap(),
        None,
        &Vec::new(),
        BodySize::NoBody,
        &mut buf,
    );
    assert_eq!(r, Ok((TransferCoding::Eof, true)));
    assert_eq!(text(&buf), "HTTP/1.0 500 <none>\r\nconnection: close\r\ndate: now\r\n\r\n");
}

#[test]
fn headers_from_entries() {
    let entries = vec![
        entry(Some("connection"), "keep-alive"),
        entry(None, "close"),
        entry(None, "dropped"),
        entry(Some("upgrade"), "h2c"),
    ];
    let mut buf = BytesMut::from(&b"x"[..]);
    let r = write_headers(false, false, b"now", &entries, BodySize::Stream, false, &mut buf);
    assert_eq!(r, Ok((TransferCoding::encode_chunked(), true)));
    assert_eq!(
        text(&buf),
        "x\r\nconnection: keep-alive, close\r\nupgrade: h2c\r\ntransfer-encoding: chunked\r\nconnection: close\r\ndate: now\r\n\r\n"
    );

    let entries = vec![entry(Some("x-a"), "1"), entry(Some("transfer-encoding"), "chunked\u{7f}")];
    let mut buf = BytesMut::from(&b"x"[..]);
    let r = write_headers(false, true, b"now", &entries, BodySize::Sized(4), false, &mut buf);
    assert_eq!(r, Err(ProtoError::Header));
    assert_eq!(&buf[..], b"x");
}

#[test]
fn what_a_header_settles() {
    let start = Settled { close: false, skip_len: false, skip_date: false, coding: TransferCoding::Eof };
    assert_eq!(heed_header(start, b"x-a", b"1"), Ok((start, false)));
    assert_eq!(heed_header(start, b"date", b"now"), Ok((Settled { skip_date: true, ..start }, false)));
    assert_eq!(
        heed_header(start, b"upgrade", b"h2c"),
        Ok((Settled { coding: TransferCoding::Upgrade, ..start }, false))
    );
    assert_eq!(
        heed_header(start, b"content-length", b"12"),
        Ok((Settled { coding: TransferCoding::Length(12), skip_len: true, ..start }, false))
    );
    assert_eq!(heed_header(start, b"content-length", b""), Err(ProtoError::Header));
    assert_eq!(heed_header(start, b"transfer-encoding", b"gzip"), Ok((start, false)));
    assert_eq!(heed_header(start, b"connection", b"close"), Ok((Settled { close: true, ..start }, false)));
    let closing = Settled { close: true, ..start };
    assert_eq!(heed_header(closing, b"connection", b"keep-alive"), Ok((closing, true)));
    assert_eq!(heed_header(closing, b"Connection", b"keep-alive"), Ok((closing, false)));
}

#[test]
fn head_is_written_where_it_fits() {
    let mut ctx = ctx();
    let mut headers = HeaderMap::new();
    headers.insert("x-a", HeaderValue::from_static("1"));
    let mut buf = BytesMut::from(&b"earlier"[..]);
    let coding = ctx.try_encode_head(parts(200, headers), BodySize::Sized(3), &mut buf).unwrap().unwrap();
    assert_eq!(coding, TransferCoding::Length(3));
    assert_eq!(
        text(&buf),
        "earlierHTTP/1.1 200 OK\r\nx-a: 1\r\ncontent-length: 3\r\ndate: Thu, 01 Jan 1970 00:00:00 GMT\r\n\r\n"
    );
    assert!(ctx.take_headers().is_empty());

    let mut headers = HeaderMap::new();
    headers.insert(CONTENT_LENGTH, HeaderValue::from_static("x"));
    let mut buf = BytesMut::from(&b"earlier"[..]);
    let r = ctx.try_encode_head(parts(200, headers), BodySize::NoBody, &mut buf);
    assert_eq!(r, Some(Err(ProtoError::Header)));
    assert_eq!(&buf[..], b"earlier");

    let mut buf = BytesMut::new();
    let r = ctx.try_encode_headers(HeaderMap::new(), BodySize::Stream, &mut buf, false);
    assert_eq!(r, Some(Ok(TransferCoding::encode_chunked())));
    assert_eq!(text(&buf), "\r\ntransfer-encoding: chunked\r\ndate: Thu, 01 Jan 1970 00:00:00 GMT\r\n\r\n");
}

#[test]
fn head_size_is_summed_with_care() {
    let entries = vec![entry(Some("x-a"), "1"), entry(None, "22"), entry(Some("x-bcd"), "")];
    assert_eq!(entries_bound(&entries), Some((3 + 1 + 4) + (2 + 4) + (5 + 4)));
    assert_eq!(entries_bound(&Vec::new()), Some(0));
    assert!(head_room(0, &entries, 29));
    assert!(head_room(usize::MAX - 192 - 29 - 23, &entries, 29));
    assert!(!head_room(usize::MAX - 192 - 29 - 22, &entries, 29));
    assert!(!head_room(0, &entries, usize::MAX - 191));
    assert!(!head_room(usize::MAX, &Vec::new(), 0));
    assert!(head_room(usize::MAX - 192, &Vec::new(), 0));
}
