use bytes::BytesMut;
use http_core::coding::{ChunkPhase, ChunkResult, ChunkState, TransferCoding};
use http_core::error::ChunkError;

fn data(r: ChunkResult) -> Vec<u8> {
    match r {
        ChunkResult::Data(b) => b.to_vec(),
        ChunkResult::InsufficientData => panic!("insufficient data"),
        ChunkResult::Eof => panic!("eof"),
        ChunkResult::Failed(e) => panic!("{}", e.message()),
    }
}

fn failure(input: &[u8]) -> ChunkError {
    let mut coding = TransferCoding::decode_chunked();
    let mut buf = BytesMut::from(input);
    loop {
        let before = buf.to_vec();
        let state = coding;
        match coding.decode(&mut buf) {
            ChunkResult::Failed(e) => {
                assert_eq!(&buf[..], &before[..], "malformed framing leaves the input");
                assert_eq!(coding, state, "malformed framing leaves the decoder");
                return e;
            }
            ChunkResult::Data(_) => {}
            ChunkResult::InsufficientData => panic!("insufficient data"),
            ChunkResult::Eof => panic!("eof"),
        }
    }
}

#[test]
fn chunked_encode_writes_size_line_data_and_line_ending() {
    let mut coding = TransferCoding::encode_chunked();
    let mut buf = BytesMut::new();
    coding.encode(b"hello", &mut buf);
    assert_eq!(&buf[..], b"5\r\nhello\r\n");
    coding.encode_eof(&mut buf);
    assert_eq!(&buf[..], b"5\r\nhello\r\n0\r\n\r\n");
}

#[test]
fn chunked_encode_skips_empty_piece() {
    let mut coding = TransferCoding::encode_chunked();
    let mut buf = BytesMut::new();
    coding.encode(b"", &mut buf);
    assert!(buf.is_empty());
}

#[test]
fn chunked_encode_size_is_upper_case_hex() {
    let mut coding = TransferCoding::encode_chunked();
    let mut buf = BytesMut::new();
    let piece = vec![b'x'; 0x1AF];
    coding.encode(&piece, &mut buf);
    assert_eq!(&buf[..5], b"1AF\r\n");
    assert_eq!(buf.len(), 5 + 0x1AF + 2);
    assert_eq!(&buf[buf.len() - 2..], b"\r\n");
}

#[test]
fn chunked_post_echo() {
    let mut decoder = TransferCoding::decode_chunked();
    let mut read = BytesMut::from(&b"5\r\nhello\r\n0\r\n\r\n"[..]);
    let mut encoder = TransferCoding::encode_chunked();
    let mut write = BytesMut::new();
    loop {
        match decoder.decode(&mut read) {
            ChunkResult::Data(piece) => encoder.encode(&piece, &mut write),
            ChunkResult::Eof => {
                encoder.encode_eof(&mut write);
                break;
            }
            _ => panic!("unexpected"),
        }
    }
    assert_eq!(&write[..], b"5\r\nhello\r\n0\r\n\r\n");
    assert!(read.is_empty());
    assert!(decoder.is_eof());
}

#[test]
fn chunked_round_trip_of_several_pieces() {
    let pieces: Vec<&[u8]> = vec![b"a", b"", b"bcdefghijklmnopqrstuvwxyz", b"0\r\n\r\n"];
    let mut encoder = TransferCoding::encode_chunked();
    let mut wire = BytesMut::new();
    for p in &pieces {
        encoder.encode(p, &mut wire);
    }
    encoder.encode_eof(&mut wire);
    assert!(wire.ends_with(b"0\r\n\r\n"));
    wire.extend_from_slice(b"GET /next");

    let mut decoder = TransferCoding::decode_chunked();
    let mut got: Vec<Vec<u8>> = Vec::new();
    loop {
        match decoder.decode(&mut wire) {
            ChunkResult::Data(piece) => got.push(piece.to_vec()),
            ChunkResult::Eof => break,
            _ => panic!("unexpected"),
        }
    }
    let expected: Vec<Vec<u8>> = pieces.iter().filter(|p| !p.is_empty()).map(|p| p.to_vec()).collect();
    assert_eq!(got, expected);
    assert_eq!(&wire[..], b"GET /next");
}

#[test]
fn chunked_decode_across_partial_input() {
    let mut decoder = TransferCoding::decode_chunked();
    let mut buf = BytesMut::from(&b"A;ext=1\r\n0123"[..]);
    assert_eq!(data(decoder.decode(&mut buf)), b"0123");
    assert!(buf.is_empty());
    assert_eq!(
        decoder,
        TransferCoding::Chunked(ChunkState { phase: ChunkPhase::Body, size: 6 })
    );
    assert!(matches!(decoder.decode(&mut buf), ChunkResult::InsufficientData));
    buf.extend_from_slice(b"456789\r");
    assert_eq!(data(decoder.decode(&mut buf)), b"456789");
    assert!(matches!(decoder.decode(&mut buf), ChunkResult::InsufficientData));
    assert!(buf.is_empty());
    buf.extend_from_slice(b"\n0\r\nx-trailer: 1\r\n\r\nrest");
    assert!(matches!(decoder.decode(&mut buf), ChunkResult::Eof));
    assert_eq!(&buf[..], b"rest");
    assert_eq!(decoder, TransferCoding::Eof);
    assert!(matches!(decoder.decode(&mut buf), ChunkResult::Eof));
    assert_eq!(&buf[..], b"rest");
}

#[test]
fn chunked_decode_lower_case_size() {
    let mut decoder = TransferCoding::decode_chunked();
    let mut buf = BytesMut::from(&b"a \r\n0123456789\r\n"[..]);
    assert_eq!(data(decoder.decode(&mut buf)), b"0123456789");
}

#[test]
fn chunked_decode_errors() {
    assert_eq!(failure(b"g\r\n"), ChunkError::InvalidSize);
    assert_eq!(failure(b"fffffffffffffffff\r\n"), ChunkError::SizeOverflow);
    assert_eq!(failure(b"1 x\r\n"), ChunkError::InvalidSizeLws);
    assert_eq!(failure(b"1;a\nb\r\n"), ChunkError::ExtensionNewline);
    assert_eq!(failure(b"1\rx"), ChunkError::InvalidSizeLf);
    assert_eq!(failure(b"1\r\naX\n"), ChunkError::InvalidBodyCr);
    assert_eq!(failure(b"1\r\na\rX"), ChunkError::InvalidBodyLf);
    assert_eq!(failure(b"0\r\nt: 1\rX"), ChunkError::InvalidTrailerLf);
    assert_eq!(failure(b"0\r\n\rX"), ChunkError::InvalidEndLf);
}

#[test]
fn chunk_error_messages() {
    assert_eq!(ChunkError::InvalidSize.message(), "Invalid chunk size line: Invalid Size");
    assert_eq!(ChunkError::InvalidEndLf.message(), "Invalid chunk end LF");
}

#[test]
fn length_decode_hands_out_at_most_what_is_left() {
    let mut decoder = TransferCoding::length(5);
    let mut buf = BytesMut::from(&b"hel"[..]);
    assert_eq!(data(decoder.decode(&mut buf)), b"hel");
    assert_eq!(decoder, TransferCoding::Length(2));
    assert!(!decoder.is_eof());
    assert!(matches!(decoder.decode(&mut buf), ChunkResult::InsufficientData));
    buf.extend_from_slice(b"loGET");
    assert_eq!(data(decoder.decode(&mut buf)), b"lo");
    assert_eq!(&buf[..], b"GET");
    assert!(decoder.is_eof());
    assert!(matches!(decoder.decode(&mut buf), ChunkResult::Eof));
    assert_eq!(decoder, TransferCoding::Eof);
    assert_eq!(&buf[..], b"GET");
}

#[test]
fn length_encode_counts_down() {
    let mut encoder = TransferCoding::length(5);
    let mut buf = BytesMut::new();
    encoder.encode(b"he", &mut buf);
    assert_eq!(encoder, TransferCoding::Length(3));
    encoder.encode(b"llo", &mut buf);
    assert_eq!(encoder, TransferCoding::Length(0));
    encoder.encode_eof(&mut buf);
    assert_eq!(&buf[..], b"hello");
    assert!(encoder.is_eof());
}

#[test]
fn upgrade_passes_bytes_through() {
    let mut coding = TransferCoding::upgrade();
    let mut buf = BytesMut::new();
    assert!(matches!(coding.decode(&mut buf), ChunkResult::InsufficientData));
    buf.extend_from_slice(b"\x81\x05hello");
    assert_eq!(data(coding.decode(&mut buf)), b"\x81\x05hello");
    assert!(buf.is_empty());
    let mut out = BytesMut::new();
    coding.encode(b"raw", &mut out);
    coding.encode_eof(&mut out);
    assert_eq!(&out[..], b"raw");
    assert!(!coding.is_eof());
}

#[test]
fn eof_framing_writes_and_reads_nothing() {
    let mut coding = TransferCoding::eof();
    let mut buf = BytesMut::from(&b"GET"[..]);
    assert!(matches!(coding.decode(&mut buf), ChunkResult::Eof));
    assert_eq!(&buf[..], b"GET");
    let mut out = BytesMut::new();
    coding.encode(b"dropped", &mut out);
    coding.encode_eof(&mut out);
    assert!(out.is_empty());
    assert!(coding.is_eof());
}

#[test]
fn plain_eof_passes_bytes_through() {
    let mut coding = TransferCoding::plain_eof();
    let mut buf = BytesMut::from(&b"abc"[..]);
    assert_eq!(data(coding.decode(&mut buf)), b"abc");
    assert!(!coding.is_eof());
}
