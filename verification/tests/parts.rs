use core::time::Duration;
use http::header::{HeaderMap, HeaderValue, ACCEPT_ENCODING};
use http_core::config::{HttpServiceConfig, DEFAULT_HEADER_LIMIT, DEFAULT_READ_BUF_LIMIT, DEFAULT_WRITE_BUF_LIMIT};
use http_core::content_encoding::{ContentEncoding, QValue};
use http_core::error::{InvalidUri, TimeoutError};
use http_core::io::{read_step, reserve_hint, write_step, IoOutcome, ReadStep, WriteStep, READ_CHUNK};
use http_core::notify::{Notify, Waited};
use http_core::num::{hex_value, parse_decimal, push_hex};
use http_core::service::{Decompress, FollowRedirect, H3ServiceBuilder};
use http_core::text::{bytes_eq, bytes_eq_ignore_case, copy_range, find_byte, str_bytes, to_lower, trim_range};
use http_core::timer::{instant_after, TimeoutKind, Timer, TimerState};
use http_core::value::{check_visible, connection_close, ends_with_token, has_token, parse_content_length, token_bounds};

#[test]
fn config_defaults() {
    let config = HttpServiceConfig::new();
    assert!(config.vectored_write);
    assert_eq!(config.keep_alive_timeout, Duration::from_secs(5));
    assert_eq!(config.request_head_timeout, Duration::from_secs(5));
    assert_eq!(config.tls_accept_timeout, Duration::from_secs(3));
    assert!(!config.peek_protocol);
    assert_eq!(config.header_limit(), 64);
    assert_eq!(config.read_buf_limit(), 1024 * 1024);
    assert_eq!(config.write_buf_limit(), 416 * 1024);
    assert_eq!(DEFAULT_HEADER_LIMIT, 64);
    assert_eq!(DEFAULT_READ_BUF_LIMIT, 1024 * 1024);
    assert_eq!(DEFAULT_WRITE_BUF_LIMIT, 425984);
    let d = HttpServiceConfig::default();
    assert_eq!(d.keep_alive_timeout, Duration::from_secs(5));
}

#[test]
fn config_builders() {
    let config = HttpServiceConfig::new()
        .disable_vectored_write()
        .keep_alive_timeout(Duration::from_millis(7))
        .request_head_timeout(Duration::from_millis(8))
        .tls_accept_timeout(Duration::from_millis(9))
        .peek_protocol()
        .max_read_buf_size::<100>()
        .max_write_buf_size::<200>()
        .max_request_headers::<3>();
    assert!(!config.vectored_write);
    assert_eq!(config.keep_alive_timeout, Duration::from_millis(7));
    assert_eq!(config.request_head_timeout, Duration::from_millis(8));
    assert_eq!(config.tls_accept_timeout, Duration::from_millis(9));
    assert!(config.peek_protocol);
    assert_eq!(config.read_buf_limit(), 100);
    assert_eq!(config.write_buf_limit(), 200);
    assert_eq!(config.header_limit(), 3);
    let other = config.mutate_const_generic::<1, 2, 3>();
    assert_eq!(other.keep_alive_timeout, Duration::from_millis(7));
    assert_eq!((other.header_limit(), other.read_buf_limit(), other.write_buf_limit()), (1, 2, 3));
}

fn accept(values: &[&'static str]) -> ContentEncoding {
    let mut headers = HeaderMap::new();
    for v in values {
        headers.append(ACCEPT_ENCODING, HeaderValue::from_static(v));
    }
    headers.insert("x-other", HeaderValue::from_static("gzip"));
    ContentEncoding::from_headers(&headers)
}

#[test]
fn content_encoding_from_headers() {
    assert_eq!(accept(&[]), ContentEncoding::NoOp);
    assert_eq!(accept(&["gzip"]), ContentEncoding::Gzip);
    assert_eq!(accept(&["deflate, gzip"]), ContentEncoding::Deflate);
    assert_eq!(accept(&["deflate;q=0.5, gzip;q=0.8, br;q=0.8"]), ContentEncoding::Gzip);
    assert_eq!(accept(&["deflate;q=0.5", "BR ; Q=0.501"]), ContentEncoding::Br);
    assert_eq!(accept(&["gzip;q=0"]), ContentEncoding::NoOp);
    assert_eq!(accept(&["identity, gzip"]), ContentEncoding::NoOp);
    assert_eq!(accept(&["identity;q=0.1, gzip;q=0.2"]), ContentEncoding::Gzip);
    assert_eq!(accept(&["gzip;q=2, deflate;q=0.1"]), ContentEncoding::Deflate);
    assert_eq!(accept(&["gzip;q=0.9;x=1, deflate;q=0.1"]), ContentEncoding::Deflate);
    assert_eq!(accept(&["zstd;q=1.0, br;q=0.001"]), ContentEncoding::NoOp);
}

#[test]
fn content_encoding_passes_over_unreadable_value() {
    let mut headers = HeaderMap::new();
    headers.append(ACCEPT_ENCODING, HeaderValue::from_bytes(b"gzip\x80").unwrap());
    headers.append(ACCEPT_ENCODING, HeaderValue::from_static("br;q=0.1"));
    assert_eq!(ContentEncoding::from_headers(&headers), ContentEncoding::Br);
    assert_eq!(
        ContentEncoding::choose_from(&vec![b"gzip\x80".to_vec(), b"deflate;q=0.1".to_vec()]),
        ContentEncoding::Deflate
    );
}

#[test]
fn content_encoding_names() {
    assert_eq!(ContentEncoding::parse(b"GZip"), ContentEncoding::Gzip);
    assert_eq!(ContentEncoding::parse(b"deflate"), ContentEncoding::Deflate);
    assert_eq!(ContentEncoding::parse(b"Br"), ContentEncoding::Br);
    assert_eq!(ContentEncoding::parse(b"identity"), ContentEncoding::NoOp);
    assert_eq!(ContentEncoding::parse(b"zstd"), ContentEncoding::NoOp);
    assert_eq!(ContentEncoding::parse(b""), ContentEncoding::NoOp);
    assert_eq!(ContentEncoding::default(), ContentEncoding::NoOp);
}

#[test]
fn quality_values() {
    assert_eq!(QValue::one(), QValue(1000));
    assert_eq!(QValue::parse(b"q=1"), Some(QValue(1000)));
    assert_eq!(QValue::parse(b"Q=0"), Some(QValue(0)));
    assert_eq!(QValue::parse(b"q=0."), Some(QValue(0)));
    assert_eq!(QValue::parse(b"q=0.5"), Some(QValue(500)));
    assert_eq!(QValue::parse(b"q=0.25"), Some(QValue(250)));
    assert_eq!(QValue::parse(b"q=0.125"), Some(QValue(125)));
    assert_eq!(QValue::parse(b"q=1.000"), Some(QValue(1000)));
    assert_eq!(QValue::parse(b"q=1.001"), None);
    assert_eq!(QValue::parse(b"q=0.1234"), None);
    assert_eq!(QValue::parse(b"q=2"), None);
    assert_eq!(QValue::parse(b"q=0,5"), None);
    assert_eq!(QValue::parse(b"q=0.5x"), None);
    assert_eq!(QValue::parse(b"p=0.5"), None);
    assert_eq!(QValue::parse(b"q:0.5"), None);
    assert_eq!(QValue::parse(b"q="), None);
    assert_eq!(QValue::parse(b""), None);
}

#[test]
fn timer_transitions() {
    let mut t = Timer::new(50, 20, 100);
    assert_eq!((t.state, t.get()), (TimerState::OnKeepAlive, 150));
    t.update(110);
    assert_eq!((t.state, t.get()), (TimerState::OnKeepAlive, 160));
    assert_eq!(t.map_to_err(0), TimeoutKind::KeepAliveExpire);
    assert_eq!(t.map_to_err(1), TimeoutKind::RequestTimeout);
    t.first_byte(120);
    assert_eq!((t.state, t.get()), (TimerState::OnRequestHead, 140));
    t.first_byte(130);
    t.update(135);
    assert_eq!((t.state, t.get()), (TimerState::OnRequestHead, 140));
    assert_eq!(t.map_to_err(0), TimeoutKind::RequestTimeout);
    assert!(!t.is_expired(139));
    assert!(t.is_expired(140));
    t.reset_state();
    assert_eq!((t.state, t.get()), (TimerState::OnKeepAlive, 140));
    t.update(200);
    assert_eq!(t.get(), 250);
}

#[test]
fn timer_deadline_saturates() {
    assert_eq!(instant_after(u64::MAX - 1, 1), u64::MAX);
    assert_eq!(instant_after(u64::MAX - 1, 2), u64::MAX);
    assert_eq!(instant_after(u64::MAX, u64::MAX), u64::MAX);
    assert_eq!(instant_after(0, 0), 0);
    assert_eq!(Timer::new(u64::MAX, 1, 1).get(), u64::MAX);
}

#[test]
fn rendezvous_delivers_once() {
    let mut cell: Notify<u8> = Notify::new();
    assert!(matches!(cell.wait(), Waited::Ready(None)));
    cell.notifier();
    assert!(matches!(cell.wait(), Waited::Pending));
    assert!(cell.waiting);
    cell.notify(7);
    assert!(cell.release(), "the waiter is woken");
    assert!(matches!(cell.wait(), Waited::Ready(Some(7))));
    assert!(matches!(cell.wait(), Waited::Ready(None)));
}

#[test]
fn rendezvous_reports_gone_producer() {
    let mut cell: Notify<u8> = Notify::new();
    cell.notifier();
    assert!(!cell.release(), "nobody waits");
    assert!(matches!(cell.wait(), Waited::Ready(None)));
    assert!(!cell.waiting);
}

#[test]
fn read_steps() {
    assert_eq!(read_step(3, 3, 10, IoOutcome::Done(0)), ReadStep::UnexpectedEof);
    assert_eq!(read_step(3, 5, 10, IoOutcome::Done(0)), ReadStep::Stop);
    assert_eq!(read_step(3, 5, 10, IoOutcome::Done(2)), ReadStep::Again);
    assert_eq!(read_step(3, 10, 10, IoOutcome::Done(7)), ReadStep::Stop);
    assert_eq!(read_step(3, 11, 10, IoOutcome::Done(8)), ReadStep::Stop);
    assert_eq!(read_step(3, 3, 10, IoOutcome::WouldBlock), ReadStep::Stop);
    assert_eq!(read_step(3, 3, 10, IoOutcome::Failed), ReadStep::Fail);
    assert_eq!(read_step(3, 4, 10, IoOutcome::Failed), ReadStep::Stop);
}

#[test]
fn write_steps() {
    assert_eq!(write_step(0, 10, IoOutcome::Done(0)), WriteStep::WriteZero);
    assert_eq!(write_step(0, 10, IoOutcome::Done(4)), WriteStep::Again(4));
    assert_eq!(write_step(4, 10, IoOutcome::Done(6)), WriteStep::Done);
    assert_eq!(write_step(4, 10, IoOutcome::Done(usize::MAX)), WriteStep::Done);
    assert_eq!(write_step(4, 10, IoOutcome::WouldBlock), WriteStep::Again(4));
    assert_eq!(write_step(4, 10, IoOutcome::Failed), WriteStep::Fail);
}

#[test]
fn reserve_hints() {
    assert_eq!(READ_CHUNK, 4096);
    assert_eq!(reserve_hint(0, 0), 4096);
    assert_eq!(reserve_hint(10, 110), 3996);
    assert_eq!(reserve_hint(10, 4106), 0);
    assert_eq!(reserve_hint(10, 4105), 1);
}

#[test]
fn numerals() {
    let mut v = b"x".to_vec();
    push_hex(&mut v, 0);
    push_hex(&mut v, 0xDEADBEEF);
    assert_eq!(v, b"x0DEADBEEF");
    assert_eq!(parse_decimal(b"0042"), Some(42));
    assert_eq!(parse_decimal(b""), None);
    assert_eq!(parse_decimal(b"4 2"), None);
    assert_eq!(parse_decimal(b"18446744073709551615"), Some(u64::MAX));
    assert_eq!(parse_decimal(b"18446744073709551616"), None);
    assert_eq!(parse_decimal(b"99999999999999999999"), None);
    assert_eq!(hex_value(b'9'), Some(9));
    assert_eq!(hex_value(b'a'), Some(10));
    assert_eq!(hex_value(b'F'), Some(15));
    assert_eq!(hex_value(b'g'), None);
    assert_eq!(hex_value(b'/'), None);
}

#[test]
fn text_helpers() {
    assert_eq!(str_bytes("abc"), b"abc");
    assert_eq!(to_lower(b'A'), b'a');
    assert_eq!(to_lower(b'Z'), b'z');
    assert_eq!(to_lower(b'['), b'[');
    assert_eq!(to_lower(b'@'), b'@');
    assert!(bytes_eq(b"ab", b"ab"));
    assert!(!bytes_eq(b"ab", b"aB"));
    assert!(!bytes_eq(b"ab", b"abc"));
    assert!(bytes_eq_ignore_case(b"Keep-Alive", b"keep-alive"));
    assert!(!bytes_eq_ignore_case(b"keep_alive", b"keep-alive"));
    assert_eq!(trim_range(b"  \ta b\t ", 0, 8), (3, 6));
    assert_eq!(trim_range(b" \t ", 0, 3), (3, 3));
    assert_eq!(trim_range(b"xx a xx", 2, 5), (3, 4));
    assert_eq!(find_byte(b"a,b,c", b',', 0, 5), 1);
    assert_eq!(find_byte(b"a,b,c", b',', 2, 5), 3);
    assert_eq!(find_byte(b"a,b,c", b',', 4, 5), 5);
    assert_eq!(find_byte(b"a,b,c", b',', 2, 3), 3);
    assert_eq!(copy_range(b"hello", 1, 3), b"el");
}

#[test]
fn header_value_helpers() {
    assert!(check_visible(b"a b\t~"));
    assert!(!check_visible(b"a\x7f"));
    assert!(!check_visible(b"a\x1f"));
    assert!(!check_visible(b"a\x80"));
    assert_eq!(token_bounds(b" a , b", 0), (1, 2, 3));
    assert_eq!(token_bounds(b" a , b", 4), (5, 6, 6));
    assert!(connection_close(b"close", false));
    assert!(!connection_close(b"keep-alive", true));
    assert!(connection_close(b"upgrade", true));
    assert!(!connection_close(b"upgrade", false));
    assert!(!connection_close(b"close, Keep-Alive", false));
    assert!(connection_close(b"keep-alive ,CLOSE", false));
    assert!(has_token(b"gzip, chunked", b"chunked"));
    assert!(has_token(b"chunked, gzip", b"chunked"));
    assert!(!has_token(b"chunkedx, gzip", b"chunked"));
    assert!(has_token(b"", b""));
    assert!(ends_with_token(b"gzip, chunked", b"chunked"));
    assert!(!ends_with_token(b"chunked, gzip", b"chunked"));
    assert!(!ends_with_token(b"chunked,", b"chunked"));
    assert_eq!(parse_content_length(b"10"), Some(10));
    assert_eq!(parse_content_length(b"1 0"), None);
}

#[test]
fn service_holders() {
    assert_eq!(FollowRedirect::new(3).service, 3);
    assert_eq!(H3ServiceBuilder::new("f").factory, "f");
    assert_eq!(Decompress.build(5).service, 5);
}

#[test]
fn error_kinds() {
    assert_ne!(InvalidUri::MissingHost, InvalidUri::MissingPathQuery);
    assert_ne!(InvalidUri::ReasonUnknown, InvalidUri::MissingScheme);
    assert_ne!(TimeoutError::Resolve, TimeoutError::Connect);
    assert_ne!(TimeoutError::TlsHandshake, TimeoutError::Request);
}
