//! What holds of whole responses: how the head settles the framing where
//! no header does, and what the body of such a response is on the wire.

use vstd::prelude::*;
use crate::coding::{last_chunk, Decoding, Outcome, TransferCoding};
use crate::coding_laws::{
    accepts_all, concat, decode_all, encode_body, lemma_chunked_round_trip,
    lemma_sized_body_written, non_empty, Drained,
};
use crate::encode::{
    apply_entries, apply_entry, close_header, entry_name, head_spec, head_tail, headers_spec,
    size_framing, skips_framing, status_digits, status_line, status_only_tail, walk_start,
    Head, HeadState, Settled,
};
use crate::error::ProtoError;
use crate::head::{BodySize, Version};
use crate::text::ascii;

verus! {

/// A header name that settles the framing of the body.
pub open spec fn is_framing_name(name: Seq<u8>) -> bool {
    name == ascii("upgrade"@) || name == ascii("content-length"@) || name == ascii(
        "transfer-encoding"@,
    )
}

/// None of the entries from position `i` on stands under a name that
/// settles the framing, where an entry without a name of its own stands
/// under `current` or under the name of the entry before.
pub open spec fn no_framing_entries(
    current: Seq<u8>,
    entries: Seq<(Option<Seq<u8>>, Seq<u8>)>,
    i: int,
) -> bool
    decreases entries.len() - i,
{
    i < 0 || i >= entries.len() || (!is_framing_name(entry_name(current, entries[i]))
        && no_framing_entries(entry_name(current, entries[i]), entries, i + 1))
}

/// Headers that do not settle the framing leave it as it was.
pub proof fn lemma_framing_left(st: HeadState, entries: Seq<(Option<Seq<u8>>, Seq<u8>)>, i: int)
    requires
        no_framing_entries(st.name, entries, i),
    ensures
        apply_entries(st, entries, i) matches Ok(end) ==> end.settled.skip_len
            == st.settled.skip_len && end.settled.coding == st.settled.coding,
    decreases entries.len() - i,
{
    if 0 <= i < entries.len() {
        match apply_entry(st, entries[i]) {
            Ok(next) => {
                lemma_framing_left(next, entries, i + 1);
            },
            Err(e) => {},
        }
    }
}

/// Where no header settles the framing, the declared size of the body
/// does: a body of declared size is written in content-length framing of
/// that size, a body of unknown size in chunked framing, and no body in
/// none. This holds of every response that is not the answer to a `HEAD`
/// request and whose status asks for a framing header.
pub proof fn lemma_size_settles_framing(
    close: bool,
    connect_method: bool,
    date: Seq<u8>,
    version: Version,
    code: u16,
    reason: Option<Seq<char>>,
    entries: Seq<(Option<Seq<u8>>, Seq<u8>)>,
    size: BodySize,
)
    requires
        no_framing_entries(ascii("te"@), entries, 0),
        !skips_framing(connect_method, code),
    ensures
        head_spec(close, false, connect_method, date, version, code, reason, entries, size)
            matches Ok(head) ==> head.coding == size_framing(size).1,
{
    let start = walk_start(
        Settled { close, skip_len: false, skip_date: false, coding: TransferCoding::Eof },
    );
    lemma_framing_left(start, entries, 0);
}

/// The head of a response without headers: the status line, the framing
/// header that the declared size of the body calls for, `connection:
/// close` where the connection is marked to close, the date, and the
/// empty line. The connection is marked to close after it exactly where
/// it was before.
pub proof fn lemma_head_without_headers(
    close: bool,
    connect_method: bool,
    date: Seq<u8>,
    version: Version,
    code: u16,
    reason: Option<Seq<char>>,
    size: BodySize,
)
    requires
        !skips_framing(connect_method, code),
        !(100 <= code < 200),
    ensures
        head_spec(
            close,
            false,
            connect_method,
            date,
            version,
            code,
            reason,
            Seq::empty(),
            size,
        ) == Ok::<Head, ProtoError>(
            Head {
                bytes: status_line(version, code, reason) + size_framing(size).0 + (if close {
                    close_header()
                } else {
                    Seq::empty()
                }) + ascii("\r\ndate: "@) + date + ascii("\r\n\r\n"@),
                coding: size_framing(size).1,
                close,
            },
        ),
{
    let entries = Seq::<(Option<Seq<u8>>, Seq<u8>)>::empty();
    let settled = Settled { close, skip_len: false, skip_date: false, coding: TransferCoding::Eof };
    let start = walk_start(settled);
    assert(apply_entries(start, entries, 0) == Ok::<HeadState, ProtoError>(start));
    let tail = head_tail(settled, size, date);
    let close_part = if close {
        close_header()
    } else {
        Seq::<u8>::empty()
    };
    let head = headers_spec(close, false, date, entries, size, false).unwrap();
    assert(head.bytes =~= size_framing(size).0 + close_part + ascii("\r\ndate: "@) + date + ascii(
        "\r\n\r\n"@,
    ));
    assert(status_line(version, code, reason) + head.bytes =~= status_line(version, code, reason)
        + size_framing(size).0 + close_part + ascii("\r\ndate: "@) + date + ascii("\r\n\r\n"@));
}

/// The body of a response of declared size is exactly its pieces.
///
/// Take a response whose headers do not settle the framing, whose status
/// asks for a framing header, and which is not the answer to a `HEAD`
/// request. Where its body declares `n` bytes and yields pieces that add
/// up to `n`, every piece may be written in the framing that the head
/// settles, and what is written behind the head is the pieces joined: `n`
/// bytes, with nothing before, between or after them.
pub proof fn lemma_sized_response_body(
    close: bool,
    connect_method: bool,
    date: Seq<u8>,
    version: Version,
    code: u16,
    reason: Option<Seq<char>>,
    entries: Seq<(Option<Seq<u8>>, Seq<u8>)>,
    n: usize,
    pieces: Seq<Seq<u8>>,
)
    requires
        no_framing_entries(ascii("te"@), entries, 0),
        !skips_framing(connect_method, code),
        concat(pieces).len() == n,
    ensures
        head_spec(
            close,
            false,
            connect_method,
            date,
            version,
            code,
            reason,
            entries,
            BodySize::Sized(n),
        ) matches Ok(head) ==> {
            &&& head.coding == TransferCoding::Length(n as u64)
            &&& accepts_all(head.coding, pieces)
            &&& encode_body(head.coding, pieces) == concat(pieces)
            &&& encode_body(head.coding, pieces).len() == n
        },
{
    lemma_size_settles_framing(
        close,
        connect_method,
        date,
        version,
        code,
        reason,
        entries,
        BodySize::Sized(n),
    );
    lemma_sized_body_written(n as u64, pieces);
}

/// The body of a streamed response ends with the last chunk and decodes
/// to its pieces.
///
/// Take a response whose headers do not settle the framing, whose status
/// asks for a framing header, which is not the answer to a `HEAD` request
/// and whose body does not declare its size. What is written behind the
/// head for any pieces ends with `0\r\n\r\n`; and a chunked decoder that is
/// fed these bytes, whatever follows them, hands out the pieces that are
/// not empty, in order, then reports the end of the body and leaves what
/// followed.
pub proof fn lemma_streamed_response_body(
    close: bool,
    connect_method: bool,
    date: Seq<u8>,
    version: Version,
    code: u16,
    reason: Option<Seq<char>>,
    entries: Seq<(Option<Seq<u8>>, Seq<u8>)>,
    pieces: Seq<Seq<u8>>,
    rest: Seq<u8>,
)
    requires
        no_framing_entries(ascii("te"@), entries, 0),
        !skips_framing(connect_method, code),
        forall|i: int| 0 <= i < pieces.len() ==> (#[trigger] pieces[i]).len() <= u64::MAX,
    ensures
        head_spec(
            close,
            false,
            connect_method,
            date,
            version,
            code,
            reason,
            entries,
            BodySize::Stream,
        ) matches Ok(head) ==> {
            let wire = encode_body(head.coding, pieces);
            &&& head.coding == TransferCoding::chunked_start()
            &&& accepts_all(head.coding, pieces)
            &&& wire.len() >= 5
            &&& wire.skip(wire.len() - 5) == last_chunk()
            &&& decode_all(TransferCoding::chunked_start(), wire + rest) == (Drained {
                pieces: non_empty(pieces),
                last: Decoding { outcome: Outcome::Eof, coding: TransferCoding::Eof, rest },
            })
        },
{
    lemma_size_settles_framing(
        close,
        connect_method,
        date,
        version,
        code,
        reason,
        entries,
        BodySize::Stream,
    );
    lemma_chunked_round_trip(pieces, rest);
    lemma_chunked_accepts(pieces);
}

/// Chunked framing takes every piece.
pub proof fn lemma_chunked_accepts(pieces: Seq<Seq<u8>>)
    ensures
        accepts_all(TransferCoding::chunked_start(), pieces),
    decreases pieces.len(),
{
    if pieces.len() > 0 {
        lemma_chunked_accepts(pieces.skip(1));
    }
}

/// The response that only reports an error begins with the version and
/// the status code, declares an empty body, and ends with `connection:
/// close` and the empty line; nothing follows.
pub proof fn lemma_status_only_response(code: u16, reason: Option<Seq<char>>)
    requires
        code != 200,
    ensures
        ({
            let response = status_line(Version::Http11, code, reason) + status_only_tail();
            &&& response.len() >= 13 + 42
            &&& response.take(13) == ascii("HTTP/1.1 "@) + status_digits(code) + ascii(" "@)
            &&& response.skip(response.len() - 42) == ascii(
                "\r\ncontent-length: 0\r\nconnection: close\r\n\r\n"@,
            )
            &&& response.skip(response.len() - 23) == ascii("\r\nconnection: close\r\n\r\n"@)
        }),
{
    reveal_strlit("HTTP/1.1 ");
    reveal_strlit(" ");
    reveal_strlit("\r\ncontent-length: 0\r\nconnection: close\r\n\r\n");
    reveal_strlit("\r\nconnection: close\r\n\r\n");
    let line = status_line(Version::Http11, code, reason);
    let tail = status_only_tail();
    let response = line + tail;
    assert(tail.len() == 42);
    assert(line.len() >= 13);
    assert(response.take(13) =~= ascii("HTTP/1.1 "@) + status_digits(code) + ascii(" "@));
    assert(response.skip(response.len() - 42) =~= tail);
    assert(response.skip(response.len() - 23) =~= ascii("\r\nconnection: close\r\n\r\n"@));
}

} // verus!
