use bytes::BytesMut;
use http::header::HeaderMap;
use http_core::body::{BodyError, BodyReader, Pull};
use http_core::buf::ReadBuf;
use http_core::coding::{ChunkPhase, ChunkState, TransferCoding};
use http_core::dispatcher::{Dispatcher, Error, PumpStep, Recovery};
use http_core::encode::{encode_continue, ResponseParts};
use http_core::error::{ChunkError, ProtoError};
use http_core::head::{BodySize, StatusCode, Version};
use http_core::timer::{TimeoutKind, TimerState};

const DATE_TEXT: &[u8] = b"Thu, 01 Jan 1970 00:00:00 GMT";

type Conn = Dispatcher<8, 1024, 1024>;
type Small = Dispatcher<8, 64, 32>;
type E = Error<(), (), ()>;

fn conn() -> Conn {
    Dispatcher::new(5_000, 2_000, DATE_TEXT.to_vec(), 100)
}

fn small() -> Small {
    Dispatcher::new(5_000, 2_000, DATE_TEXT.to_vec(), 100)
}

fn ok(headers: HeaderMap) -> ResponseParts {
    ResponseParts { status: StatusCode::ok(), version: Version::Http11, headers }
}

fn feed<const H: usize, const R: usize, const W: usize>(d: &mut Dispatcher<H, R, W>, input: &[u8], now: u64) -> bool {
    d.begin_read(DATE_TEXT.to_vec(), now);
    assert!(input.len() <= d.read_room());
    d.fill(input);
    d.on_read(input.len(), now)
}

#[test]
fn pipelined_get_get() {
    let mut d = conn();
    assert!(feed(&mut d, b"GET /a HTTP/1.1\r\nHost: x\r\n\r\nGET /b HTTP/1.1\r\nHost: x\r\n\r\n", 200));
    let mut targets = Vec::new();
    while let Some(incoming) = d.next_request().unwrap() {
        assert!(incoming.body.is_none());
        targets.push(incoming.head.target.clone());
        let mut encoder = d.try_respond(ok(HeaderMap::new()), BodySize::Sized(0)).unwrap().unwrap();
        assert_eq!(d.pump_step(), PumpStep::Poll);
        d.end_body(&mut encoder);
        assert!(!d.ctx.is_connection_closed());
        assert!(!d.ctx.is_head_method());
        assert_eq!(d.ctx.date, DATE_TEXT);
    }
    assert_eq!(targets, vec![b"/a".to_vec(), b"/b".to_vec()]);
    let one = "HTTP/1.1 200 OK\r\ncontent-length: 0\r\ndate: Thu, 01 Jan 1970 00:00:00 GMT\r\n\r\n";
    assert_eq!(String::from_utf8(d.write_buf.buf.to_vec()).unwrap(), format!("{one}{one}"));
    assert!(!d.flushed(), "connection remains open");
    assert!(d.write_buf.buf.is_empty());
    assert_eq!(d.read_buf.as_ref().unwrap().len(), 0);
    assert!(!d.waiting);
}

#[test]
fn chunked_post_echo_through_the_connection() {
    let mut d = conn();
    assert!(feed(&mut d, b"POST / HTTP/1.1\r\nHost: x\r\ntransfer-encoding: chunked\r\n\r\n5\r\nhello\r\n0\r\n\r\n", 200));
    let incoming = d.next_request().unwrap().unwrap();
    let mut body = incoming.body.unwrap();
    assert!(d.waiting);
    assert!(d.read_buf.is_none());
    let mut encoder = d.respond(ok(HeaderMap::new()), BodySize::Stream).unwrap();
    let head_len = d.write_buf.len();
    loop {
        match body.pull() {
            Pull::Data(piece) => d.push_body(&mut encoder, &piece),
            Pull::End => {
                d.end_body(&mut encoder);
                break;
            }
            _ => panic!("unexpected"),
        }
    }
    assert_eq!(&d.write_buf.buf[head_len..], b"5\r\nhello\r\n0\r\n\r\n");
    d.reclaim(body.finish());
    assert!(!d.waiting);
    assert_eq!(d.read_buf.as_ref().unwrap().len(), 0);
    assert!(!d.flushed());
    assert!(matches!(d.next_request(), Ok(None)));
}

#[test]
fn expect_continue_is_sent_on_first_pull() {
    let mut d = conn();
    assert!(feed(&mut d, b"PUT / HTTP/1.1\r\nHost: x\r\ncontent-length: 3\r\nexpect: 100-continue\r\n\r\n", 200));
    let incoming = d.next_request().unwrap().unwrap();
    let mut body = incoming.body.unwrap();
    assert!(body.expect_continue);
    let mut wire = BytesMut::new();
    match body.pull() {
        Pull::SendContinue => encode_continue(&mut wire),
        _ => panic!("unexpected"),
    }
    assert_eq!(&wire[..], b"HTTP/1.1 100 Continue\r\n\r\n");
    assert_eq!(d.write_buf.len(), 0, "nothing of the response is written yet");
    assert!(matches!(body.pull(), Pull::Read));
    assert!(body.on_read(b"abc").is_ok());
    match body.pull() {
        Pull::Data(piece) => assert_eq!(&piece[..], b"abc"),
        _ => panic!("unexpected"),
    }
    assert!(matches!(body.pull(), Pull::End));
    assert!(body.finish().is_some());
}

#[test]
fn keep_alive_idle_close() {
    let mut d = conn();
    assert!(feed(&mut d, b"GET / HTTP/1.1\r\nHost: x\r\n\r\n", 200));
    assert!(d.next_request().unwrap().is_some());
    let mut encoder = d.respond(ok(HeaderMap::new()), BodySize::Sized(0)).unwrap();
    d.end_body(&mut encoder);
    assert!(matches!(d.next_request(), Ok(None)));
    assert!(!d.flushed());

    let deadline = d.begin_read(DATE_TEXT.to_vec(), 1_000);
    assert_eq!(deadline, 6_000);
    assert!(!d.timer.is_expired(5_999));
    assert!(d.timer.is_expired(6_000));
    let kind = d.on_timeout();
    assert_eq!(kind, TimeoutKind::KeepAliveExpire);
    let error: E = Error::from_timeout(kind);
    assert!(matches!(d.recover(&error), Recovery::Exit));
    assert_eq!(d.write_buf.len(), 0, "no response bytes emitted");
}

#[test]
fn header_too_large_is_answered_with_431() {
    let mut d = small();
    let mut input = b"GET / HTTP/1.1\r\nHost: x\r\nx-long: ".to_vec();
    input.resize(64, b'a');
    assert!(feed(&mut d, &input, 200));
    let error: E = match d.next_request() {
        Err(e) => Error::Proto(e),
        Ok(_) => panic!("accepted"),
    };
    assert!(matches!(error, Error::Proto(ProtoError::HeaderTooLarge)));
    match d.recover(&error) {
        Recovery::Respond(status) => assert_eq!(status.as_u16(), 431),
        _ => panic!("unexpected"),
    }
    assert_eq!(
        &d.write_buf.buf[..],
        &b"HTTP/1.1 431 Request Header Fields Too Large\r\ncontent-length: 0\r\nconnection: close\r\n\r\n"[..]
    );
    assert!(d.flushed(), "then shutdown");
}

#[test]
fn partial_head_timeout() {
    let mut d = conn();
    assert_eq!(d.begin_read(DATE_TEXT.to_vec(), 200), 5_200);
    d.fill(b"GET / HTTP/1.1\r\nHost: ");
    assert!(d.on_read(22, 300));
    assert_eq!(d.timer.state, TimerState::OnRequestHead);
    assert_eq!(d.timer.deadline, 2_300);
    assert!(matches!(d.next_request(), Ok(None)));
    assert!(!d.flushed());

    assert_eq!(d.begin_read(DATE_TEXT.to_vec(), 900), 2_300, "the deadline of the head stands");
    let kind = d.on_timeout();
    assert_eq!(kind, TimeoutKind::RequestTimeout);
    let error: E = Error::from_timeout(kind);
    match d.recover(&error) {
        Recovery::Respond(status) => assert_eq!(status.as_u16(), 408),
        _ => panic!("unexpected"),
    }
    assert_eq!(
        &d.write_buf.buf[..],
        &b"HTTP/1.1 408 Request Timeout\r\ncontent-length: 0\r\nconnection: close\r\n\r\n"[..]
    );
    assert!(d.flushed());
}

#[test]
fn bad_request_is_answered_with_400() {
    let mut d = conn();
    assert!(feed(&mut d, b"GET / HTTP/1.1\r\nHost x\r\n\r\n", 200));
    let error: E = Error::Proto(d.next_request().err().unwrap());
    match d.recover(&error) {
        Recovery::Respond(status) => assert_eq!(status.as_u16(), 400),
        _ => panic!("unexpected"),
    }
    assert!(d.write_buf.buf.starts_with(b"HTTP/1.1 400 Bad Request\r\n"));
    assert!(d.flushed());
}

#[test]
fn failures_of_transport_handler_and_body_are_handed_on() {
    let mut d = conn();
    let e: E = Error::Io(());
    assert!(matches!(d.recover(&e), Recovery::Propagate));
    let e: E = Error::Service(());
    assert!(matches!(d.recover(&e), Recovery::Propagate));
    let e: E = Error::Body(());
    assert!(matches!(d.recover(&e), Recovery::Propagate));
    assert_eq!(d.write_buf.len(), 0);
    assert!(!d.ctx.is_connection_closed());
}

#[test]
fn peer_close_marks_the_connection() {
    let mut d = conn();
    assert!(!feed(&mut d, b"", 200));
    assert!(d.ctx.is_connection_closed());
    assert_eq!(d.timer.state, TimerState::OnKeepAlive);
    assert!(d.flushed());
}

#[test]
fn head_decode_resets_the_timer_state() {
    let mut d = conn();
    assert!(feed(&mut d, b"GET / HTTP/1.1\r\nHost: x\r\n\r\n", 200));
    assert_eq!(d.timer.state, TimerState::OnRequestHead);
    assert!(d.next_request().unwrap().is_some());
    assert_eq!(d.timer.state, TimerState::OnKeepAlive);
}

#[test]
fn body_that_ends_early_loses_the_read_buffer() {
    let mut d = conn();
    assert!(feed(&mut d, b"POST / HTTP/1.1\r\nHost: x\r\ncontent-length: 5\r\n\r\nab", 200));
    let incoming = d.next_request().unwrap().unwrap();
    let mut body = incoming.body.unwrap();
    match body.pull() {
        Pull::Data(piece) => assert_eq!(&piece[..], b"ab"),
        _ => panic!("unexpected"),
    }
    assert!(matches!(body.pull(), Pull::Read));
    assert_eq!(body.read_done(0), Err(BodyError::UnexpectedEof));
    assert_eq!(body.read_done(1), Ok(()));
    assert_eq!(body.on_read(b""), Err(BodyError::UnexpectedEof));
    d.reclaim(body.finish());
    assert!(d.read_buf.is_none());
    assert!(d.ctx.is_connection_closed());
    assert!(d.flushed());
}

#[test]
fn body_that_is_not_read_keeps_the_buffer_only_when_complete() {
    let mut d = conn();
    assert!(feed(&mut d, b"POST / HTTP/1.1\r\nHost: x\r\ncontent-length: 2\r\n\r\nab", 200));
    let body = d.next_request().unwrap().unwrap().body.unwrap();
    d.reclaim(body.finish());
    assert!(d.ctx.is_connection_closed());
}

#[test]
fn body_read_buffer_limit() {
    let mut d = small();
    assert!(feed(&mut d, b"POST / HTTP/1.1\r\nHost: x\r\ncontent-length: 99\r\n\r\n", 200));
    let mut body = d.next_request().unwrap().unwrap().body.unwrap();
    assert!(matches!(body.pull(), Pull::Read));
    assert_eq!(body.read_buf.room(), 64);
    assert!(body.on_read(&[b'a'; 64]).is_ok());
    assert!(!body.read_buf.want_write_buf());
    match body.pull() {
        Pull::Data(piece) => assert_eq!(piece.len(), 64),
        _ => panic!("unexpected"),
    }
    assert_eq!(body.coding, TransferCoding::Length(35));
    assert!(matches!(body.pull(), Pull::Read));
}

#[test]
fn body_reports_full_buffer_without_piece() {
    let mut body: BodyReader<0> = BodyReader::new(false, TransferCoding::decode_chunked(), ReadBuf::new());
    match body.pull() {
        Pull::Failed(BodyError::ReadBufLimit { limit, length }) => {
            assert_eq!(limit, 0);
            assert_eq!(length, 0);
        }
        _ => panic!("unexpected"),
    }
    let buf = ReadBuf::restore(BytesMut::from(&b"zz"[..])).unwrap();
    let mut body: BodyReader<8> = BodyReader::new(false, TransferCoding::decode_chunked(), buf);
    assert!(matches!(body.pull(), Pull::Failed(BodyError::Chunk(ChunkError::InvalidSize))));
    assert_eq!(&body.read_buf.buf[..], b"zz");
    assert_eq!(body.coding, TransferCoding::Chunked(ChunkState { phase: ChunkPhase::Size, size: 0 }));
    assert!(body.finish().is_none());
}

#[test]
fn read_buffer_keeps_its_limit() {
    assert!(ReadBuf::<2>::restore(BytesMut::from(&b"abc"[..])).is_none());
    let mut buf = ReadBuf::<4>::restore(BytesMut::from(&b"abc"[..])).unwrap();
    assert_eq!(buf.room(), 1);
    assert!(buf.want_write_buf());
    buf.fill(b"d");
    assert_eq!(&buf.buf[..], b"abcd");
    assert_eq!(buf.room(), 0);
    assert!(!buf.want_write_buf());
    let d = small();
    assert_eq!(d.read_room(), 64);
}

#[test]
fn pump_polls_below_the_limit_and_drains_at_it() {
    let mut d = small();
    let mut encoder = TransferCoding::upgrade();
    assert_eq!(d.pump_step(), PumpStep::Poll);
    assert_eq!(d.on_body_pending(), PumpStep::Wait);
    d.push_body(&mut encoder, &[b'a'; 31]);
    assert_eq!(d.pump_step(), PumpStep::Poll);
    assert_eq!(d.on_body_pending(), PumpStep::Drain);
    d.push_body(&mut encoder, b"b");
    assert_eq!(d.write_buf.len(), 32);
    assert!(!d.write_buf.want_write_buf());
    assert!(d.write_buf.want_write_io());
    assert_eq!(d.pump_step(), PumpStep::Drain);
    assert!(!d.flushed());
    assert_eq!(d.pump_step(), PumpStep::Poll);
}
