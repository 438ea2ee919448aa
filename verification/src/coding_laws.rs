//! What holds of whole bodies: the bytes written for a body of declared
//! size, and that a chunked body decodes to the pieces it was encoded from.

use vstd::prelude::*;
use crate::coding::{
    crlf, last_chunk, lemma_scan_bounds, scan, step, ChunkPhase, ChunkState, Decoding, Outcome,
    Scan, Step, TransferCoding,
};
use crate::num::{hex_char, hex_digits, lemma_hex_char_val, lemma_hex_digits_len};

verus! {

/// The pieces of a body, joined.
pub open spec fn concat(pieces: Seq<Seq<u8>>) -> Seq<u8>
    decreases pieces.len(),
{
    if pieces.len() == 0 {
        Seq::empty()
    } else {
        pieces[0] + concat(pieces.skip(1))
    }
}

/// The pieces that hold at least one byte, in order.
pub open spec fn non_empty(pieces: Seq<Seq<u8>>) -> Seq<Seq<u8>>
    decreases pieces.len(),
{
    if pieces.len() == 0 {
        Seq::empty()
    } else if pieces[0].len() == 0 {
        non_empty(pieces.skip(1))
    } else {
        seq![pieces[0]] + non_empty(pieces.skip(1))
    }
}

/// Each piece in turn may be written under the framing that the pieces
/// before it leave.
pub open spec fn accepts_all(c: TransferCoding, pieces: Seq<Seq<u8>>) -> bool
    decreases pieces.len(),
{
    pieces.len() == 0 || (c.accepts(pieces[0]) && accepts_all(
        c.after_encode(pieces[0]),
        pieces.skip(1),
    ))
}

/// The bytes written by encoding the pieces in turn.
pub open spec fn encode_all(c: TransferCoding, pieces: Seq<Seq<u8>>) -> Seq<u8>
    decreases pieces.len(),
{
    if pieces.len() == 0 {
        Seq::empty()
    } else {
        c.encoded(pieces[0]) + encode_all(c.after_encode(pieces[0]), pieces.skip(1))
    }
}

/// The framing after the pieces have been encoded in turn.
pub open spec fn coding_after_all(c: TransferCoding, pieces: Seq<Seq<u8>>) -> TransferCoding
    decreases pieces.len(),
{
    if pieces.len() == 0 {
        c
    } else {
        coding_after_all(c.after_encode(pieces[0]), pieces.skip(1))
    }
}

/// A whole encoded body: the pieces in turn, then what ends the body.
pub open spec fn encode_body(c: TransferCoding, pieces: Seq<Seq<u8>>) -> Seq<u8> {
    encode_all(c, pieces) + coding_after_all(c, pieces).encoded_eof()
}

/// A body of declared size, written in content-length framing from pieces
/// that add up to that size, is the pieces joined: exactly as many bytes as
/// declared, with nothing added, and the framing ends with nothing left to
/// write.
pub proof fn lemma_sized_body_written(n: u64, pieces: Seq<Seq<u8>>)
    requires
        concat(pieces).len() == n,
    ensures
        accepts_all(TransferCoding::Length(n), pieces),
        encode_body(TransferCoding::Length(n), pieces) == concat(pieces),
        encode_body(TransferCoding::Length(n), pieces).len() == n,
        coding_after_all(TransferCoding::Length(n), pieces) == TransferCoding::Length(0),
        coding_after_all(TransferCoding::Length(n), pieces).done(),
    decreases pieces.len(),
{
    let c = TransferCoding::Length(n);
    if pieces.len() == 0 {
        assert(encode_body(c, pieces) =~= concat(pieces));
    } else {
        let p = pieces[0];
        let m = (n - p.len()) as u64;
        assert(concat(pieces).len() == p.len() + concat(pieces.skip(1)).len());
        lemma_sized_body_written(m, pieces.skip(1));
        assert(c.after_encode(p) == TransferCoding::Length(m));
        assert(c.encoded(p) =~= p);
        assert(encode_body(c, pieces) =~= concat(pieces));
    }
}

/// What decoding a whole input gives: the pieces handed out up to the first
/// step that hands out none, and that step.
pub ghost struct Drained {
    pub pieces: Seq<Seq<u8>>,
    pub last: Decoding,
}

/// Decodes `s` step by step until a step hands out no piece.
pub open spec fn decode_all(c: TransferCoding, s: Seq<u8>) -> Drained
    decreases s.len(),
{
    let d = c.decoding(s);
    match d.outcome {
        Outcome::Chunk(piece) => if d.rest.len() < s.len() {
            let more = decode_all(d.coding, d.rest);
            Drained { pieces: seq![piece] + more.pieces, last: more.last }
        } else {
            Drained { pieces: seq![piece], last: d }
        },
        _ => Drained { pieces: Seq::empty(), last: d },
    }
}

/// The result of a scan with every position moved forward by `k`.
pub open spec fn shifted(r: Scan, k: int) -> Scan {
    match r {
        Scan::Chunk { start, len, state } => Scan::Chunk { start: start + k, len, state },
        Scan::End { at } => Scan::End { at: at + k },
        _ => r,
    }
}

/// Scanning behind a prefix is scanning without it, moved forward.
pub proof fn lemma_scan_shift(st: ChunkState, p: Seq<u8>, w: Seq<u8>, i: int)
    requires
        0 <= i <= w.len(),
    ensures
        scan(st, p + w, p.len() + i) == shifted(scan(st, w, i), p.len() as int),
    decreases w.len() - i,
{
    let s = p + w;
    if st.phase != ChunkPhase::End && i < w.len() {
        assert(s[p.len() + i] == w[i]);
        if st.phase != ChunkPhase::Body {
            match step(st, w[i]) {
                Step::Next(next) => {
                    lemma_scan_shift(next, p, w, i + 1);
                },
                Step::Fail(error) => {},
            }
        }
    }
}

/// Reading the hexadecimal numeral of `n` from the start of a size line
/// arrives behind it with the size `n`.
pub proof fn lemma_scan_hex(n: nat, s: Seq<u8>, i: int)
    requires
        n <= u64::MAX,
        0 <= i,
        i + hex_digits(n).len() <= s.len(),
        s.subrange(i, i + hex_digits(n).len()) == hex_digits(n),
    ensures
        scan(ChunkState { phase: ChunkPhase::Size, size: 0 }, s, i) == scan(
            ChunkState { phase: ChunkPhase::Size, size: n as u64 },
            s,
            i + hex_digits(n).len(),
        ),
    decreases n,
{
    let h = hex_digits(n);
    let start = ChunkState { phase: ChunkPhase::Size, size: 0 };
    if n < 16 {
        assert(s[i] == h[0]);
        lemma_hex_char_val(n);
    } else {
        let m = n / 16;
        let hm = hex_digits(m);
        assert(h =~= hm.push(hex_char(n % 16)));
        assert(s.subrange(i, i + hm.len()) =~= hm) by {
            assert forall|j: int| 0 <= j < hm.len() implies s.subrange(i, i + hm.len())[j]
                == hm[j] by {
                assert(s.subrange(i, i + h.len())[j] == h[j]);
            }
        }
        lemma_scan_hex(m, s, i);
        let mid = ChunkState { phase: ChunkPhase::Size, size: m as u64 };
        let k = i + hm.len();
        assert(s[k] == hex_char(n % 16)) by {
            assert(s.subrange(i, i + h.len())[hm.len() as int] == h[hm.len() as int]);
        }
        lemma_hex_char_val(n % 16);
        assert(m * 16 + n % 16 == n);
        assert(step(mid, s[k]) == Step::Next(
            ChunkState { phase: ChunkPhase::Size, size: n as u64 },
        ));
    }
}

/// The bytes that frame one non-empty piece in chunked framing.
pub open spec fn chunk_frame(piece: Seq<u8>) -> Seq<u8> {
    hex_digits(piece.len()) + crlf() + piece + crlf()
}

/// Decoding from the start of a chunk hands out the piece that the chunk
/// was encoded from and stops before the line ending that follows it.
pub proof fn lemma_decode_frame(piece: Seq<u8>, rest: Seq<u8>)
    requires
        1 <= piece.len() <= u64::MAX,
    ensures
        TransferCoding::chunked_start().decoding(chunk_frame(piece) + rest) == (Decoding {
            outcome: Outcome::Chunk(piece),
            coding: TransferCoding::Chunked(ChunkState { phase: ChunkPhase::BodyCr, size: 0 }),
            rest: crlf() + rest,
        }),
{
    reveal_strlit("\r\n");
    let n = piece.len();
    let h = hex_digits(n);
    let s = chunk_frame(piece) + rest;
    let w = crlf() + piece + crlf() + rest;
    assert(s =~= h + w);
    lemma_hex_digits_len(n);
    assert(s.subrange(0, h.len() as int) =~= h);
    lemma_scan_hex(n, s, 0);
    let sized = ChunkState { phase: ChunkPhase::Size, size: n as u64 };
    lemma_scan_shift(sized, h, w, 0);
    assert(w[0] == 13u8);
    assert(w[1] == 10u8);
    let lf = ChunkState { phase: ChunkPhase::SizeLf, size: n as u64 };
    let body = ChunkState { phase: ChunkPhase::Body, size: n as u64 };
    assert(step(sized, w[0]) == Step::Next(lf));
    assert(step(lf, w[1]) == Step::Next(body));
    assert(scan(sized, w, 0) == scan(lf, w, 1));
    assert(scan(lf, w, 1) == scan(body, w, 2));
    assert(scan(body, w, 2) == Scan::Chunk {
        start: 2,
        len: n as int,
        state: ChunkState { phase: ChunkPhase::BodyCr, size: 0 },
    });
    let at: int = h.len() as int + 2;
    assert(s.subrange(at, at + n) =~= piece);
    assert(s.skip(at + n) =~= crlf() + rest);
}

/// Behind the data of a chunk, decoding goes on as from the start of the
/// next chunk, where the framing that follows is well formed.
pub proof fn lemma_decode_after_piece(w: Seq<u8>)
    requires
        w.len() > 0,
        !(TransferCoding::chunked_start().decoding(w).outcome is Failed),
    ensures
        TransferCoding::Chunked(ChunkState { phase: ChunkPhase::BodyCr, size: 0 }).decoding(
            crlf() + w,
        ) == TransferCoding::chunked_start().decoding(w),
{
    reveal_strlit("\r\n");
    let s = crlf() + w;
    let cr = ChunkState { phase: ChunkPhase::BodyCr, size: 0 };
    let lf = ChunkState { phase: ChunkPhase::BodyLf, size: 0 };
    let start = ChunkState { phase: ChunkPhase::Size, size: 0 };
    assert(s[0] == 13u8);
    assert(s[1] == 10u8);
    assert(step(cr, s[0]) == Step::Next(lf));
    assert(step(lf, s[1]) == Step::Next(start));
    assert(scan(cr, s, 0) == scan(lf, s, 1));
    assert(scan(lf, s, 1) == scan(start, s, 2));
    lemma_scan_shift(start, crlf(), w, 0);
    lemma_scan_bounds(start, w, 0);
    match scan(start, w, 0) {
        Scan::Chunk { start: a, len, state } => {
            assert(s.subrange(a + 2, a + 2 + len) =~= w.subrange(a, a + len));
            assert(s.skip(a + 2 + len) =~= w.skip(a + len));
        },
        Scan::End { at } => {
            assert(s.skip(at + 2) =~= w.skip(at));
        },
        Scan::More { state } => {},
        Scan::Fail { error } => {},
    }
}

/// Decoding the last chunk ends the body and leaves what follows it.
pub proof fn lemma_decode_last_chunk(rest: Seq<u8>)
    ensures
        TransferCoding::chunked_start().decoding(last_chunk() + rest) == (Decoding {
            outcome: Outcome::Eof,
            coding: TransferCoding::Eof,
            rest,
        }),
{
    reveal_strlit("0\r\n\r\n");
    let s = last_chunk() + rest;
    let s0 = ChunkState { phase: ChunkPhase::Size, size: 0 };
    let s1 = ChunkState { phase: ChunkPhase::SizeLf, size: 0 };
    let s2 = ChunkState { phase: ChunkPhase::EndCr, size: 0 };
    let s3 = ChunkState { phase: ChunkPhase::EndLf, size: 0 };
    let s4 = ChunkState { phase: ChunkPhase::End, size: 0 };
    assert(s[0] == 48u8 && s[1] == 13u8 && s[2] == 10u8 && s[3] == 13u8 && s[4] == 10u8);
    assert(step(s0, s[0]) == Step::Next(s0));
    assert(step(s0, s[1]) == Step::Next(s1));
    assert(step(s1, s[2]) == Step::Next(s2));
    assert(step(s2, s[3]) == Step::Next(s3));
    assert(step(s3, s[4]) == Step::Next(s4));
    assert(scan(s0, s, 0) == scan(s0, s, 1));
    assert(scan(s0, s, 1) == scan(s1, s, 2));
    assert(scan(s1, s, 2) == scan(s2, s, 3));
    assert(scan(s2, s, 3) == scan(s3, s, 4));
    assert(scan(s3, s, 4) == scan(s4, s, 5));
    assert(scan(s4, s, 5) == Scan::End { at: 5 });
    assert(s.skip(5) =~= rest);
}

/// A chunked body, decoded, is the pieces it was encoded from.
///
/// Pieces are encoded in turn and the body is ended; the bytes written end
/// with the last chunk `0\r\n\r\n`. Decoding them, whatever follows on the
/// wire, hands out the same pieces in the same order, but for the empty
/// ones, which leave no trace on the wire; then it reports the end of the
/// body, with exactly the bytes that followed the body left in the input.
pub proof fn lemma_chunked_round_trip(pieces: Seq<Seq<u8>>, rest: Seq<u8>)
    requires
        forall|i: int| 0 <= i < pieces.len() ==> (#[trigger] pieces[i]).len() <= u64::MAX,
    ensures
        ({
            let wire = encode_body(TransferCoding::chunked_start(), pieces);
            &&& wire.len() >= 5
            &&& wire.skip(wire.len() - 5) == last_chunk()
            &&& decode_all(TransferCoding::chunked_start(), wire + rest) == (Drained {
                pieces: non_empty(pieces),
                last: Decoding { outcome: Outcome::Eof, coding: TransferCoding::Eof, rest },
            })
        }),
    decreases pieces.len(),
{
    reveal_strlit("0\r\n\r\n");
    reveal_strlit("\r\n");
    let c = TransferCoding::chunked_start();
    let wire = encode_body(c, pieces);
    lemma_chunked_coding_kept(pieces);
    if pieces.len() == 0 {
        assert(wire =~= last_chunk());
        assert(wire.skip(wire.len() - 5) =~= last_chunk());
        lemma_decode_last_chunk(rest);
    } else {
        let p = pieces[0];
        let tail = pieces.skip(1);
        let tail_wire = encode_body(c, tail);
        assert forall|i: int| 0 <= i < tail.len() implies (#[trigger] tail[i]).len()
            <= u64::MAX by {
            assert(tail[i] == pieces[i + 1]);
        }
        lemma_chunked_round_trip(tail, rest);
        lemma_chunked_coding_kept(tail);
        assert(c.after_encode(p) == c);
        assert(wire =~= c.encoded(p) + tail_wire);
        assert(wire.skip(wire.len() - 5) =~= tail_wire.skip(tail_wire.len() - 5));
        if p.len() == 0 {
            assert(wire =~= tail_wire);
        } else {
            let after = TransferCoding::Chunked(
                ChunkState { phase: ChunkPhase::BodyCr, size: 0 },
            );
            let w = tail_wire + rest;
            assert(wire + rest =~= chunk_frame(p) + w);
            lemma_decode_frame(p, w);
            assert(w.len() > 0);
            assert(!(c.decoding(w).outcome is Failed)) by {
                assert(decode_all(c, w).last.outcome == Outcome::Eof);
            }
            lemma_decode_after_piece(w);
            let d = c.decoding(wire + rest);
            assert(d.rest == crlf() + w);
            assert(d.rest.len() < (wire + rest).len());
            lemma_decode_all_agree(after, crlf() + w, c, w);
        }
    }
}

/// Chunked framing is the same after any pieces are encoded.
pub proof fn lemma_chunked_coding_kept(pieces: Seq<Seq<u8>>)
    ensures
        coding_after_all(TransferCoding::chunked_start(), pieces) == TransferCoding::chunked_start(),
    decreases pieces.len(),
{
    if pieces.len() > 0 {
        lemma_chunked_coding_kept(pieces.skip(1));
    }
}

/// Two inputs on which the next step does the same decode to the same
/// pieces, provided the step makes progress on both.
pub proof fn lemma_decode_all_agree(c1: TransferCoding, s1: Seq<u8>, c2: TransferCoding, s2: Seq<u8>)
    requires
        c1.decoding(s1) == c2.decoding(s2),
        c1.decoding(s1).outcome is Chunk ==> c1.decoding(s1).rest.len() < s1.len()
            && c1.decoding(s1).rest.len() < s2.len(),
    ensures
        decode_all(c1, s1) == decode_all(c2, s2),
{
}


/// A body in content-length framing that is all there is decoded in one
/// piece, and what follows it on the wire is left.
pub proof fn lemma_length_decoded(n: u64, body: Seq<u8>, rest: Seq<u8>)
    requires
        body.len() == n,
    ensures
        decode_all(TransferCoding::Length(n), body + rest) == (Drained {
            pieces: if n == 0 {
                Seq::<Seq<u8>>::empty()
            } else {
                seq![body]
            },
            last: Decoding { outcome: Outcome::Eof, coding: TransferCoding::Eof, rest },
        }),
{
    let c = TransferCoding::Length(n);
    let s = body + rest;
    if n == 0 {
        assert(s =~= rest);
    } else {
        assert(s.take(n as int) =~= body);
        assert(s.skip(n as int) =~= rest);
        let d = c.decoding(s);
        assert(d.outcome == Outcome::Chunk(body));
        assert(d.coding == TransferCoding::Length(0));
        assert(d.rest == rest);
        assert(decode_all(d.coding, rest).pieces =~= Seq::<Seq<u8>>::empty());
        assert(seq![body] + Seq::<Seq<u8>>::empty() =~= seq![body]);
    }
}

/// Framing without body writes nothing and reads nothing.
pub proof fn lemma_no_body(pieces: Seq<Seq<u8>>, rest: Seq<u8>)
    ensures
        encode_body(TransferCoding::Eof, pieces) == Seq::<u8>::empty(),
        decode_all(TransferCoding::Eof, rest) == (Drained {
            pieces: Seq::<Seq<u8>>::empty(),
            last: Decoding { outcome: Outcome::Eof, coding: TransferCoding::Eof, rest },
        }),
    decreases pieces.len(),
{
    if pieces.len() > 0 {
        lemma_no_body(pieces.skip(1), rest);
        assert(TransferCoding::Eof.encoded(pieces[0]) =~= Seq::<u8>::empty());
        assert(encode_body(TransferCoding::Eof, pieces) =~= encode_body(
            TransferCoding::Eof,
            pieces.skip(1),
        ));
    } else {
        assert(encode_body(TransferCoding::Eof, pieces) =~= Seq::<u8>::empty());
    }
}

} // verus!
