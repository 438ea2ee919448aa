//! Body framing: content-length, chunked, upgrade and end-of-connection
//! framing, in both directions.

use vstd::prelude::*;
use bytes::BytesMut;
use crate::buf::{buf_advance, buf_as_slice, buf_extend, buf_len, buf_split_to, contents};
use crate::error::ChunkError;
use crate::buf::put_str;
use crate::num::{hex_digits, hex_val, hex_value, push_hex};
use crate::text::ascii;

verus! {

/// Where the chunked decoder stands within the framing of one chunk.
#[derive(Clone, Copy, Debug, PartialEq, Eq, Structural)]
pub enum ChunkPhase {
    /// Reading the hexadecimal chunk size.
    Size,
    /// Skipping whitespace after the size.
    SizeLws,
    /// Skipping a chunk extension.
    Extension,
    /// Expecting the line feed that ends the size line.
    SizeLf,
    /// Reading chunk data.
    Body,
    /// Expecting the carriage return after chunk data.
    BodyCr,
    /// Expecting the line feed after chunk data.
    BodyLf,
    /// Skipping a trailer line.
    Trailer,
    /// Expecting the line feed that ends a trailer line.
    TrailerLf,
    /// After the last chunk: a carriage return ends the body, anything else
    /// begins a trailer line.
    EndCr,
    /// Expecting the final line feed.
    EndLf,
    /// The body is complete.
    End,
}

/// State of the chunked decoder: the phase, and the size of the current
/// chunk as far as it is read, or what is left of its data.
#[derive(Clone, Copy, Debug, PartialEq, Eq, Structural)]
pub struct ChunkState {
    pub phase: ChunkPhase,
    pub size: u64,
}

/// The framing of one message body.
#[derive(Clone, Copy, Debug, PartialEq, Eq, Structural)]
pub enum TransferCoding {
    /// No body, or a body that is complete.
    Eof,
    /// Content-length framing with the number of bytes still expected.
    Length(u64),
    /// Chunked framing.
    Chunked(ChunkState),
    /// Bytes pass through as they are after a protocol upgrade.
    Upgrade,
    /// Bytes pass through as they are until the connection ends.
    PlainEof,
}

/// What one step of decoding gives.
pub enum ChunkResult {
    /// A piece of the body.
    Data(BytesMut),
    /// More input is needed.
    InsufficientData,
    /// The body is complete.
    Eof,
    /// The framing is malformed.
    Failed(ChunkError),
}

/// What one step of decoding gives, with the bytes of a piece as a sequence.
pub ghost enum Outcome {
    Chunk(Seq<u8>),
    InsufficientData,
    Eof,
    Failed(ChunkError),
}

impl ChunkResult {
    /// What the step gave, with the bytes of a piece as a sequence.
    pub open spec fn outcome(self) -> Outcome {
        match self {
            ChunkResult::Data(b) => Outcome::Chunk(contents(b)),
            ChunkResult::InsufficientData => Outcome::InsufficientData,
            ChunkResult::Eof => Outcome::Eof,
            ChunkResult::Failed(e) => Outcome::Failed(e),
        }
    }
}

/// The effect of one byte of chunk framing on the decoder.
pub ghost enum Step {
    Next(ChunkState),
    Fail(ChunkError),
}

/// The effect of the framing byte `b` in state `st`. The phases `Body` and
/// `End` read no framing byte.
pub open spec fn step(st: ChunkState, b: u8) -> Step {
    match st.phase {
        ChunkPhase::Size => match hex_val(b) {
            Some(d) => if st.size * 16 + d <= u64::MAX {
                Step::Next(ChunkState { phase: ChunkPhase::Size, size: (st.size * 16 + d) as u64 })
            } else {
                Step::Fail(ChunkError::SizeOverflow)
            },
            None => if b == 9 || b == 32 {
                Step::Next(ChunkState { phase: ChunkPhase::SizeLws, size: st.size })
            } else if b == 59 {
                Step::Next(ChunkState { phase: ChunkPhase::Extension, size: st.size })
            } else if b == 13 {
                Step::Next(ChunkState { phase: ChunkPhase::SizeLf, size: st.size })
            } else {
                Step::Fail(ChunkError::InvalidSize)
            },
        },
        ChunkPhase::SizeLws => if b == 9 || b == 32 {
            Step::Next(ChunkState { phase: ChunkPhase::SizeLws, size: st.size })
        } else if b == 59 {
            Step::Next(ChunkState { phase: ChunkPhase::Extension, size: st.size })
        } else if b == 13 {
            Step::Next(ChunkState { phase: ChunkPhase::SizeLf, size: st.size })
        } else {
            Step::Fail(ChunkError::InvalidSizeLws)
        },
        ChunkPhase::Extension => if b == 13 {
            Step::Next(ChunkState { phase: ChunkPhase::SizeLf, size: st.size })
        } else if b == 10 {
            Step::Fail(ChunkError::ExtensionNewline)
        } else {
            Step::Next(ChunkState { phase: ChunkPhase::Extension, size: st.size })
        },
        ChunkPhase::SizeLf => if b == 10 {
            if st.size == 0 {
                Step::Next(ChunkState { phase: ChunkPhase::EndCr, size: 0 })
            } else {
                Step::Next(ChunkState { phase: ChunkPhase::Body, size: st.size })
            }
        } else {
            Step::Fail(ChunkError::InvalidSizeLf)
        },
        ChunkPhase::BodyCr => if b == 13 {
            Step::Next(ChunkState { phase: ChunkPhase::BodyLf, size: st.size })
        } else {
            Step::Fail(ChunkError::InvalidBodyCr)
        },
        ChunkPhase::BodyLf => if b == 10 {
            Step::Next(ChunkState { phase: ChunkPhase::Size, size: 0 })
        } else {
            Step::Fail(ChunkError::InvalidBodyLf)
        },
        ChunkPhase::Trailer => if b == 13 {
            Step::Next(ChunkState { phase: ChunkPhase::TrailerLf, size: st.size })
        } else {
            Step::Next(ChunkState { phase: ChunkPhase::Trailer, size: st.size })
        },
        ChunkPhase::TrailerLf => if b == 10 {
            Step::Next(ChunkState { phase: ChunkPhase::EndCr, size: st.size })
        } else {
            Step::Fail(ChunkError::InvalidTrailerLf)
        },
        ChunkPhase::EndCr => if b == 13 {
            Step::Next(ChunkState { phase: ChunkPhase::EndLf, size: st.size })
        } else {
            Step::Next(ChunkState { phase: ChunkPhase::Trailer, size: st.size })
        },
        ChunkPhase::EndLf => if b == 10 {
            Step::Next(ChunkState { phase: ChunkPhase::End, size: st.size })
        } else {
            Step::Fail(ChunkError::InvalidEndLf)
        },
        ChunkPhase::Body | ChunkPhase::End => Step::Next(st),
    }
}

/// What reading chunk framing from position `i` of `s` arrives at.
pub ghost enum Scan {
    /// Chunk data of `len` bytes begins at `start`; `state` holds after it.
    Chunk { start: int, len: int, state: ChunkState },
    /// The input ended within the framing, in `state`.
    More { state: ChunkState },
    /// The body ended just before position `at`.
    End { at: int },
    /// The framing is malformed.
    Fail { error: ChunkError },
}

/// Reads chunk framing in state `st` from position `i` of `s`, up to the
/// next chunk data, the end of the body, the end of the input or an error.
pub open spec fn scan(st: ChunkState, s: Seq<u8>, i: int) -> Scan
    decreases s.len() - i,
{
    if st.phase == ChunkPhase::End {
        Scan::End { at: i }
    } else if i >= s.len() {
        Scan::More { state: st }
    } else if st.phase == ChunkPhase::Body {
        if st.size <= s.len() - i {
            Scan::Chunk {
                start: i,
                len: st.size as int,
                state: ChunkState { phase: ChunkPhase::BodyCr, size: 0 },
            }
        } else {
            Scan::Chunk {
                start: i,
                len: s.len() - i,
                state: ChunkState {
                    phase: ChunkPhase::Body,
                    size: (st.size - (s.len() - i)) as u64,
                },
            }
        }
    } else {
        match step(st, s[i]) {
            Step::Next(next) => scan(next, s, i + 1),
            Step::Fail(error) => Scan::Fail { error },
        }
    }
}

/// One step of decoding: what is handed out, the framing afterwards and the
/// input that is left.
pub ghost struct Decoding {
    pub outcome: Outcome,
    pub coding: TransferCoding,
    pub rest: Seq<u8>,
}

impl TransferCoding {
    /// Framing of a message without body.
    pub fn eof() -> (c: Self)
        ensures
            c == TransferCoding::Eof,
    {
        TransferCoding::Eof
    }

    /// Content-length framing of `len` bytes.
    pub fn length(len: u64) -> (c: Self)
        ensures
            c == TransferCoding::Length(len),
    {
        TransferCoding::Length(len)
    }

    /// The state in which a chunked body begins.
    pub open spec fn chunked_start() -> Self {
        TransferCoding::Chunked(ChunkState { phase: ChunkPhase::Size, size: 0 })
    }

    /// Chunked framing for a body that is to be decoded.
    pub fn decode_chunked() -> (c: Self)
        ensures
            c == Self::chunked_start(),
    {
        TransferCoding::Chunked(ChunkState { phase: ChunkPhase::Size, size: 0 })
    }

    /// Chunked framing for a body that is to be encoded.
    pub fn encode_chunked() -> (c: Self)
        ensures
            c == Self::chunked_start(),
    {
        TransferCoding::Chunked(ChunkState { phase: ChunkPhase::Size, size: 0 })
    }

    /// Pass-through framing after a protocol upgrade.
    pub fn upgrade() -> (c: Self)
        ensures
            c == TransferCoding::Upgrade,
    {
        TransferCoding::Upgrade
    }

    /// Pass-through framing that the end of the connection terminates.
    pub fn plain_eof() -> (c: Self)
        ensures
            c == TransferCoding::PlainEof,
    {
        TransferCoding::PlainEof
    }

    /// No more body bytes are expected.
    pub open spec fn done(self) -> bool {
        match self {
            TransferCoding::Eof => true,
            TransferCoding::Length(n) => n == 0,
            TransferCoding::Chunked(st) => st.phase == ChunkPhase::End,
            TransferCoding::Upgrade => false,
            TransferCoding::PlainEof => false,
        }
    }

    /// Whether no more body bytes are expected.
    pub fn is_eof(&self) -> (r: bool)
        ensures
            r == self.done(),
    {
        match self {
            TransferCoding::Eof => true,
            TransferCoding::Length(n) => *n == 0,
            TransferCoding::Chunked(st) => st.phase == ChunkPhase::End,
            TransferCoding::Upgrade => false,
            TransferCoding::PlainEof => false,
        }
    }

    /// What `decode` does with the input `s`.
    pub open spec fn decoding(self, s: Seq<u8>) -> Decoding {
        if self.done() {
            Decoding { outcome: Outcome::Eof, coding: TransferCoding::Eof, rest: s }
        } else if s.len() == 0 {
            Decoding { outcome: Outcome::InsufficientData, coding: self, rest: s }
        } else {
            match self {
                TransferCoding::Length(n) => if n <= s.len() {
                    Decoding {
                        outcome: Outcome::Chunk(s.take(n as int)),
                        coding: TransferCoding::Length(0),
                        rest: s.skip(n as int),
                    }
                } else {
                    Decoding {
                        outcome: Outcome::Chunk(s),
                        coding: TransferCoding::Length((n - s.len()) as u64),
                        rest: Seq::empty(),
                    }
                },
                TransferCoding::Chunked(st) => match scan(st, s, 0) {
                    Scan::Chunk { start, len, state } => Decoding {
                        outcome: Outcome::Chunk(s.subrange(start, start + len)),
                        coding: TransferCoding::Chunked(state),
                        rest: s.skip(start + len),
                    },
                    Scan::More { state } => Decoding {
                        outcome: Outcome::InsufficientData,
                        coding: TransferCoding::Chunked(state),
                        rest: Seq::empty(),
                    },
                    Scan::End { at } => Decoding {
                        outcome: Outcome::Eof,
                        coding: TransferCoding::Eof,
                        rest: s.skip(at),
                    },
                    Scan::Fail { error } => Decoding {
                        outcome: Outcome::Failed(error),
                        coding: self,
                        rest: s,
                    },
                },
                _ => Decoding { outcome: Outcome::Chunk(s), coding: self, rest: Seq::empty() },
            }
        }
    }
}


/// The line ending of the protocol.
pub open spec fn crlf() -> Seq<u8> {
    ascii("\r\n"@)
}

/// The chunk of size zero that ends a chunked body, with the empty line
/// after it.
pub open spec fn last_chunk() -> Seq<u8> {
    ascii("0\r\n\r\n"@)
}

/// What reading chunk framing from the start of a slice arrives at.
pub enum Scanned {
    Chunk { start: usize, len: usize, state: ChunkState },
    More { state: ChunkState },
    End { at: usize },
    Fail { error: ChunkError },
}

impl View for Scanned {
    type V = Scan;

    open spec fn view(&self) -> Scan {
        match *self {
            Scanned::Chunk { start, len, state } => Scan::Chunk {
                start: start as int,
                len: len as int,
                state,
            },
            Scanned::More { state } => Scan::More { state },
            Scanned::End { at } => Scan::End { at: at as int },
            Scanned::Fail { error } => Scan::Fail { error },
        }
    }
}

/// The positions that a scan of `s` from `i` names lie within `s`.
pub proof fn lemma_scan_bounds(st: ChunkState, s: Seq<u8>, i: int)
    requires
        0 <= i <= s.len(),
    ensures
        match scan(st, s, i) {
            Scan::Chunk { start, len, state } => i <= start && 0 <= len && start + len <= s.len(),
            Scan::More { state } => state.phase != ChunkPhase::End,
            Scan::End { at } => i <= at <= s.len(),
            Scan::Fail { error } => true,
        },
    decreases s.len() - i,
{
    if st.phase != ChunkPhase::End && i < s.len() && st.phase != ChunkPhase::Body {
        match step(st, s[i]) {
            Step::Next(next) => {
                lemma_scan_bounds(next, s, i + 1);
            },
            Step::Fail(error) => {},
        }
    }
}

/// A decoder that has data left whenever it stands in chunk data hands out
/// no empty piece, and stays so.
pub proof fn lemma_scan_progress(st: ChunkState, s: Seq<u8>, i: int)
    requires
        0 <= i <= s.len(),
        st.phase == ChunkPhase::Body ==> st.size > 0,
    ensures
        match scan(st, s, i) {
            Scan::Chunk { start, len, state } => 1 <= len && (state.phase == ChunkPhase::Body
                ==> state.size > 0),
            Scan::More { state } => state.phase == ChunkPhase::Body ==> state.size > 0,
            _ => true,
        },
    decreases s.len() - i,
{
    if st.phase != ChunkPhase::End && i < s.len() && st.phase != ChunkPhase::Body {
        match step(st, s[i]) {
            Step::Next(next) => {
                lemma_scan_progress(next, s, i + 1);
            },
            Step::Fail(error) => {},
        }
    }
}

/// Applies one framing byte to the decoder state.
pub fn advance_state(st: ChunkState, b: u8) -> (r: Result<ChunkState, ChunkError>)
    ensures
        match r {
            Ok(next) => step(st, b) == Step::Next(next),
            Err(error) => step(st, b) == Step::Fail(error),
        },
{
    let size = st.size;
    match st.phase {
        ChunkPhase::Size => match hex_value(b) {
            Some(d) => {
                if size > (u64::MAX - d as u64) / 16 {
                    assert(size * 16 + d > u64::MAX) by (nonlinear_arith)
                        requires
                            size > (u64::MAX - d as u64) / 16,
                            d < 16,
                    ;
                    Err(ChunkError::SizeOverflow)
                } else {
                    assert(size * 16 + d <= u64::MAX) by (nonlinear_arith)
                        requires
                            size <= (u64::MAX - d as u64) / 16,
                            d < 16,
                    ;
                    Ok(ChunkState { phase: ChunkPhase::Size, size: size * 16 + d as u64 })
                }
            },
            None => if b == 9 || b == 32 {
                Ok(ChunkState { phase: ChunkPhase::SizeLws, size })
            } else if b == 59 {
                Ok(ChunkState { phase: ChunkPhase::Extension, size })
            } else if b == 13 {
                Ok(ChunkState { phase: ChunkPhase::SizeLf, size })
            } else {
                Err(ChunkError::InvalidSize)
            },
        },
        ChunkPhase::SizeLws => if b == 9 || b == 32 {
            Ok(ChunkState { phase: ChunkPhase::SizeLws, size })
        } else if b == 59 {
            Ok(ChunkState { phase: ChunkPhase::Extension, size })
        } else if b == 13 {
            Ok(ChunkState { phase: ChunkPhase::SizeLf, size })
        } else {
            Err(ChunkError::InvalidSizeLws)
        },
        ChunkPhase::Extension => if b == 13 {
            Ok(ChunkState { phase: ChunkPhase::SizeLf, size })
        } else if b == 10 {
            Err(ChunkError::ExtensionNewline)
        } else {
            Ok(ChunkState { phase: ChunkPhase::Extension, size })
        },
        ChunkPhase::SizeLf => if b == 10 {
            if size == 0 {
                Ok(ChunkState { phase: ChunkPhase::EndCr, size: 0 })
            } else {
                Ok(ChunkState { phase: ChunkPhase::Body, size })
            }
        } else {
            Err(ChunkError::InvalidSizeLf)
        },
        ChunkPhase::BodyCr => if b == 13 {
            Ok(ChunkState { phase: ChunkPhase::BodyLf, size })
        } else {
            Err(ChunkError::InvalidBodyCr)
        },
        ChunkPhase::BodyLf => if b == 10 {
            Ok(ChunkState { phase: ChunkPhase::Size, size: 0 })
        } else {
            Err(ChunkError::InvalidBodyLf)
        },
        ChunkPhase::Trailer => if b == 13 {
            Ok(ChunkState { phase: ChunkPhase::TrailerLf, size })
        } else {
            Ok(ChunkState { phase: ChunkPhase::Trailer, size })
        },
        ChunkPhase::TrailerLf => if b == 10 {
            Ok(ChunkState { phase: ChunkPhase::EndCr, size })
        } else {
            Err(ChunkError::InvalidTrailerLf)
        },
        ChunkPhase::EndCr => if b == 13 {
            Ok(ChunkState { phase: ChunkPhase::EndLf, size })
        } else {
            Ok(ChunkState { phase: ChunkPhase::Trailer, size })
        },
        ChunkPhase::EndLf => if b == 10 {
            Ok(ChunkState { phase: ChunkPhase::End, size })
        } else {
            Err(ChunkError::InvalidEndLf)
        },
        ChunkPhase::Body => Ok(st),
        ChunkPhase::End => Ok(st),
    }
}

/// Reads chunk framing in state `st` from the start of `s`.
pub fn scan_chunked(st: ChunkState, s: &[u8]) -> (r: Scanned)
    ensures
        r@ == scan(st, s@, 0),
{
    let mut cur = st;
    let mut i: usize = 0;
    loop
        invariant
            i <= s@.len(),
            scan(st, s@, 0) == scan(cur, s@, i as int),
        decreases s@.len() - i,
    {
        if let ChunkPhase::End = cur.phase {
            return Scanned::End { at: i };
        }
        if i >= s.len() {
            return Scanned::More { state: cur };
        }
        if let ChunkPhase::Body = cur.phase {
            let avail = s.len() - i;
            if cur.size <= avail as u64 {
                return Scanned::Chunk {
                    start: i,
                    len: cur.size as usize,
                    state: ChunkState { phase: ChunkPhase::BodyCr, size: 0 },
                };
            } else {
                return Scanned::Chunk {
                    start: i,
                    len: avail,
                    state: ChunkState { phase: ChunkPhase::Body, size: cur.size - avail as u64 },
                };
            }
        }
        match advance_state(cur, s[i]) {
            Ok(next) => {
                cur = next;
                i += 1;
            },
            Err(error) => {
                return Scanned::Fail { error };
            },
        }
    }
}

impl TransferCoding {
    /// A chunked decoder that stands in chunk data has data left to read.
    /// Decoding from the start of a body keeps this, and no piece that is
    /// then handed out is empty.
    pub open spec fn wf(self) -> bool {
        match self {
            TransferCoding::Chunked(st) => st.phase == ChunkPhase::Body ==> st.size > 0,
            _ => true,
        }
    }

    /// Takes the next piece of the body from the front of `buf`.
    ///
    /// Bytes are consumed as far as they are understood: a piece of the body
    /// together with the framing before it, or all of the input when it ends
    /// within the framing. Malformed framing leaves `buf` and the decoder as
    /// they are.
    pub fn decode(&mut self, buf: &mut BytesMut) -> (r: ChunkResult)
        ensures
            r.outcome() == old(self).decoding(contents(*old(buf))).outcome,
            *final(self) == old(self).decoding(contents(*old(buf))).coding,
            contents(*final(buf)) == old(self).decoding(contents(*old(buf))).rest,
    {
        let ghost s = contents(*buf);
        if self.is_eof() {
            *self = TransferCoding::Eof;
            return ChunkResult::Eof;
        }
        let len = buf_len(buf);
        if len == 0 {
            return ChunkResult::InsufficientData;
        }
        match *self {
            TransferCoding::Length(n) => {
                if n <= len as u64 {
                    let chunk = buf_split_to(buf, n as usize);
                    *self = TransferCoding::Length(0);
                    ChunkResult::Data(chunk)
                } else {
                    let chunk = buf_split_to(buf, len);
                    *self = TransferCoding::Length(n - len as u64);
                    assert(s.take(len as int) =~= s);
                    assert(s.skip(len as int) =~= Seq::<u8>::empty());
                    ChunkResult::Data(chunk)
                }
            },
            TransferCoding::Chunked(st) => {
                let scanned = scan_chunked(st, buf_as_slice(buf));
                proof {
                    lemma_scan_bounds(st, s, 0);
                }
                match scanned {
                    Scanned::Chunk { start, len: n, state } => {
                        buf_advance(buf, start);
                        let chunk = buf_split_to(buf, n);
                        *self = TransferCoding::Chunked(state);
                        assert(s.skip(start as int).take(n as int) =~= s.subrange(
                            start as int,
                            start + n,
                        ));
                        assert(s.skip(start as int).skip(n as int) =~= s.skip(start + n));
                        ChunkResult::Data(chunk)
                    },
                    Scanned::More { state } => {
                        buf_advance(buf, len);
                        *self = TransferCoding::Chunked(state);
                        assert(s.skip(len as int) =~= Seq::<u8>::empty());
                        ChunkResult::InsufficientData
                    },
                    Scanned::End { at } => {
                        buf_advance(buf, at);
                        *self = TransferCoding::Eof;
                        ChunkResult::Eof
                    },
                    Scanned::Fail { error } => ChunkResult::Failed(error),
                }
            },
            _ => {
                let chunk = buf_split_to(buf, len);
                assert(s.take(len as int) =~= s);
                assert(s.skip(len as int) =~= Seq::<u8>::empty());
                ChunkResult::Data(chunk)
            },
        }
    }

    /// The bytes that `encode` writes for the piece `data`.
    pub open spec fn encoded(self, data: Seq<u8>) -> Seq<u8> {
        if data.len() == 0 {
            Seq::empty()
        } else {
            match self {
                TransferCoding::Eof => Seq::empty(),
                TransferCoding::Chunked(_) => hex_digits(data.len()) + crlf() + data + crlf(),
                _ => data,
            }
        }
    }

    /// The framing after `encode` has written the piece `data`.
    pub open spec fn after_encode(self, data: Seq<u8>) -> TransferCoding {
        match self {
            TransferCoding::Length(n) => TransferCoding::Length((n - data.len()) as u64),
            _ => self,
        }
    }

    /// The piece `data` may be written under this framing: content-length
    /// framing takes no more bytes than it has left.
    pub open spec fn accepts(self, data: Seq<u8>) -> bool {
        match self {
            TransferCoding::Length(n) => data.len() <= n,
            _ => true,
        }
    }

    /// Writes one piece of a body to `buf` in this framing. An empty piece
    /// writes nothing; framing without body drops the piece.
    pub fn encode(&mut self, data: &[u8], buf: &mut BytesMut)
        requires
            old(self).accepts(data@),
            contents(*old(buf)).len() + old(self).encoded(data@).len() <= usize::MAX,
        ensures
            contents(*final(buf)) == contents(*old(buf)) + old(self).encoded(data@),
            *final(self) == old(self).after_encode(data@),
    {
        let ghost before = contents(*buf);
        if data.len() == 0 {
            assert(before + Seq::<u8>::empty() =~= before);
            return ;
        }
        match *self {
            TransferCoding::Eof => {
                assert(before + Seq::<u8>::empty() =~= before);
            },
            TransferCoding::Chunked(_) => {
                proof {
                    reveal_strlit("\r\n");
                }
                let mut line: Vec<u8> = Vec::new();
                push_hex(&mut line, data.len());
                assert(line@ =~= hex_digits(data@.len()));
                buf_extend(buf, line.as_slice());
                put_str(buf, "\r\n");
                buf_extend(buf, data);
                put_str(buf, "\r\n");
                assert(contents(*buf) =~= before + (hex_digits(data@.len()) + crlf() + data@
                    + crlf()));
            },
            TransferCoding::Length(n) => {
                buf_extend(buf, data);
                *self = TransferCoding::Length(n - data.len() as u64);
            },
            _ => {
                buf_extend(buf, data);
            },
        }
    }

    /// The bytes that `encode_eof` writes.
    pub open spec fn encoded_eof(self) -> Seq<u8> {
        match self {
            TransferCoding::Chunked(_) => last_chunk(),
            _ => Seq::empty(),
        }
    }

    /// Writes what ends a body in this framing: the last chunk for chunked
    /// framing, nothing otherwise.
    pub fn encode_eof(&mut self, buf: &mut BytesMut)
        requires
            contents(*old(buf)).len() + 5 <= usize::MAX,
        ensures
            contents(*final(buf)) == contents(*old(buf)) + old(self).encoded_eof(),
            *final(self) == *old(self),
    {
        let ghost before = contents(*buf);
        match *self {
            TransferCoding::Chunked(_) => {
                proof {
                    reveal_strlit("0\r\n\r\n");
                }
                put_str(buf, "0\r\n\r\n");
            },
            _ => {
                assert(before + Seq::<u8>::empty() =~= before);
            },
        }
    }
}

/// Decoding never adds to the input.
pub proof fn lemma_decode_bounds(coding: TransferCoding, input: Seq<u8>)
    ensures
        coding.decoding(input).rest.len() <= input.len(),
{
    if !coding.done() && input.len() > 0 {
        match coding {
            TransferCoding::Chunked(st) => {
                lemma_scan_bounds(st, input, 0);
            },
            _ => {},
        }
    }
}

/// Decoding makes progress: a piece that is handed out holds at least one
/// byte and has left the input, and the decoder stays in a state from
/// which this holds again.
pub proof fn lemma_decode_progress(coding: TransferCoding, input: Seq<u8>)
    requires
        coding.wf(),
    ensures
        coding.decoding(input).coding.wf(),
        coding.decoding(input).rest.len() <= input.len(),
        coding.decoding(input).outcome matches Outcome::Chunk(piece) ==> piece.len() >= 1
            && coding.decoding(input).rest.len() + piece.len() <= input.len(),
{
    if !coding.done() && input.len() > 0 {
        match coding {
            TransferCoding::Chunked(st) => {
                lemma_scan_bounds(st, input, 0);
                lemma_scan_progress(st, input, 0);
            },
            _ => {},
        }
    }
}

} // verus!
