//! Writing a response head: the status line, the headers, the framing
//! header that the body calls for, `connection: close` and the date.

use vstd::prelude::*;
use bytes::BytesMut;
use http::HeaderMap;
use http::HeaderValue;
use crate::buf::{buf_extend, buf_len, buf_truncate, contents, put_str};
use crate::coding::{crlf, TransferCoding};
use crate::context::Context;
use crate::error::ProtoError;
use crate::head::{
    canonical_reason, drain_headers, drained, entry_views, reason_phrase, BodySize, HeaderEntry,
    StatusCode, Version,
};
use crate::num::{dec_digits, decimal};
use crate::text::{ascii, bytes_eq, lemma_concat_assoc, lemma_concat_take, str_bytes};
use crate::value::{
    check_visible, close_after, connection_close, content_length, has_token, is_visible,
    names_token, parse_content_length,
};

verus! {

/// The three digits of a status code.
pub open spec fn status_digits(code: u16) -> Seq<u8> {
    seq![(48 + code / 100) as u8, (48 + (code / 10) % 10) as u8, (48 + code % 10) as u8]
}

/// The protocol name and version that a status line begins with, and the
/// space after it. Versions that this layer does not speak are answered as
/// HTTP/1.1.
pub open spec fn version_prefix(version: Version) -> Seq<u8> {
    match version {
        Version::Http10 => ascii("HTTP/1.0 "@),
        _ => ascii("HTTP/1.1 "@),
    }
}

/// The status line without its line ending. A status without a reason
/// phrase is written with the phrase `<none>`.
pub open spec fn status_line(version: Version, code: u16, reason: Option<Seq<char>>) -> Seq<u8> {
    if version == Version::Http11 && code == 200 {
        ascii("HTTP/1.1 200 OK"@)
    } else {
        version_prefix(version) + status_digits(code) + ascii(" "@) + ascii(
            match reason {
                Some(r) => r,
                None => "<none>"@,
            },
        )
    }
}

/// The characters of a reason phrase, where there is one.
pub open spec fn reason_text(reason: Option<&str>) -> Option<Seq<char>> {
    match reason {
        Some(text) => Some(text@),
        None => None,
    }
}

/// The number of bytes that a reason phrase takes in a status line.
pub open spec fn reason_len(reason: Option<&str>) -> nat {
    match reason {
        Some(text) => text@.len(),
        None => 6,
    }
}

/// Writes the status line for the given reason phrase.
pub fn write_status_line(buf: &mut BytesMut, version: Version, status: StatusCode, reason: Option<&str>)
    requires
        reason matches Some(r) ==> r.is_ascii(),
        contents(*old(buf)).len() + 15 + reason_len(reason) <= usize::MAX,
    ensures
        contents(*final(buf)) == contents(*old(buf)) + status_line(
            version,
            status.value(),
            reason_text(reason),
        ),
        status_line(version, status.value(), reason_text(reason)).len() <= 15 + reason_len(reason),
{
    proof {
        reveal_strlit("HTTP/1.1 200 OK");
        reveal_strlit("HTTP/1.1 ");
        reveal_strlit("HTTP/1.0 ");
        reveal_strlit(" ");
        reveal_strlit("<none>");
    }
    let ghost before = contents(*buf);
    let code = status.as_u16();
    match version {
        Version::Http11 => {
            if code == 200 {
                put_str(buf, "HTTP/1.1 200 OK");
                return ;
            }
            put_str(buf, "HTTP/1.1 ");
        },
        Version::Http10 => {
            put_str(buf, "HTTP/1.0 ");
        },
        _ => {
            put_str(buf, "HTTP/1.1 ");
        },
    }
    let digits: [u8; 3] = [
        (48 + code / 100) as u8,
        (48 + (code / 10) % 10) as u8,
        (48 + code % 10) as u8,
    ];
    assert(digits@ =~= status_digits(code));
    buf_extend(buf, &digits);
    put_str(buf, " ");
    match reason {
        Some(r) => {
            put_str(buf, r);
        },
        None => {
            put_str(buf, "<none>");
        },
    }
    assert(contents(*buf) =~= before + status_line(version, code, reason_text(reason)));
}

/// Writes the status line: version, status code and the reason phrase that
/// goes with the code.
pub fn encode_version_status_reason(buf: &mut BytesMut, version: Version, status: StatusCode)
    requires
        contents(*old(buf)).len() + 64 <= usize::MAX,
    ensures
        contents(*final(buf)) == contents(*old(buf)) + status_line(
            version,
            status.value(),
            canonical_reason(status.value()),
        ),
        status_line(version, status.value(), canonical_reason(status.value())).len() <= 44,
{
    proof {
        reveal_strlit("HTTP/1.1 200 OK");
        reveal_strlit("HTTP/1.1 ");
        reveal_strlit("HTTP/1.0 ");
        reveal_strlit(" ");
        reveal_strlit("<none>");
    }
    let reason = reason_phrase(status.as_u16());
    write_status_line(buf, version, status, reason);
}

/// The header that announces chunked framing.
pub open spec fn chunked_header() -> Seq<u8> {
    ascii("\r\ntransfer-encoding: chunked"@)
}

/// The header that announces the end of the connection.
pub open spec fn close_header() -> Seq<u8> {
    ascii("\r\nconnection: close"@)
}

/// The header that declares a body of `n` bytes.
pub open spec fn length_header(n: nat) -> Seq<u8> {
    ascii("\r\ncontent-length: "@) + dec_digits(n)
}

/// Writes the header that declares a body of `size` bytes.
pub fn write_length_header(buf: &mut BytesMut, size: usize)
    requires
        contents(*old(buf)).len() + 38 <= usize::MAX,
    ensures
        contents(*final(buf)) == contents(*old(buf)) + length_header(size as nat),
        length_header(size as nat).len() <= 38,
{
    proof {
        reveal_strlit("\r\ncontent-length: ");
        lemma_dec_digits_bound(size as nat);
    }
    let ghost before = contents(*buf);
    let digits = decimal(size as u64);
    put_str(buf, "\r\ncontent-length: ");
    buf_extend(buf, digits.as_slice());
    assert(contents(*buf) =~= before + length_header(size as nat));
}

/// A number that fits in 64 bits has at most twenty decimal digits.
pub proof fn lemma_dec_digits_bound(n: nat)
    requires
        n <= u64::MAX,
    ensures
        dec_digits(n).len() <= 20,
{
    lemma_dec_width(n);
    reveal_with_fuel(dec_width, 21);
}

/// The number of decimal digits of `n`.
pub open spec fn dec_width(n: nat) -> nat
    decreases n,
{
    if n < 10 {
        1
    } else {
        1 + dec_width(n / 10)
    }
}

proof fn lemma_dec_width(n: nat)
    ensures
        dec_digits(n).len() == dec_width(n),
    decreases n,
{
    if n >= 10 {
        lemma_dec_width(n / 10);
    }
}

/// Whether an entry of the list is the first of the name `name`.
pub open spec fn has_name(entries: Seq<(Option<Seq<u8>>, Seq<u8>)>, name: Seq<u8>) -> bool {
    exists|i: int| 0 <= i < entries.len() && (#[trigger] entries[i]).0 == Some(name)
}

/// Whether the entries hold the header `name`.
pub fn contains_name(entries: &Vec<HeaderEntry>, name: &[u8]) -> (r: bool)
    ensures
        r == has_name(entry_views(entries@), name@),
{
    let ghost views = entry_views(entries@);
    let mut i: usize = 0;
    while i < entries.len()
        invariant
            i <= entries@.len(),
            views == entry_views(entries@),
            forall|j: int| 0 <= j < i ==> (#[trigger] views[j]).0 != Some(name@),
        decreases entries.len() - i,
    {
        let entry = &entries[i];
        assert(views[i as int] == entry@);
        match &entry.name {
            Some(n) => {
                if bytes_eq(n.as_slice(), name) {
                    return true;
                }
            },
            None => {},
        }
        i += 1;
    }
    false
}

/// What the response to a `HEAD` request keeps of the framing that its body
/// would have had: the framing header that is written for it, and the
/// declared size that is left. Where the headers already hold the framing
/// header, nothing is written and the size is kept.
pub open spec fn head_framing(entries: Seq<(Option<Seq<u8>>, Seq<u8>)>, size: BodySize) -> (
    Seq<u8>,
    BodySize,
) {
    match size {
        BodySize::NoBody => (Seq::empty(), size),
        BodySize::Stream => if has_name(entries, ascii("transfer-encoding"@)) {
            (Seq::empty(), size)
        } else {
            (chunked_header(), BodySize::NoBody)
        },
        BodySize::Sized(n) => if has_name(entries, ascii("content-length"@)) {
            (Seq::empty(), size)
        } else {
            (length_header(n as nat), BodySize::NoBody)
        },
    }
}

/// Drops the body of a response to a `HEAD` request: the framing header
/// that the body would have had is written, unless the headers hold it
/// already, and the declared size becomes that of no body.
pub fn try_remove_body(buf: &mut BytesMut, entries: &Vec<HeaderEntry>, size: &mut BodySize)
    requires
        contents(*old(buf)).len() + 38 <= usize::MAX,
    ensures
        contents(*final(buf)) == contents(*old(buf)) + head_framing(
            entry_views(entries@),
            *old(size),
        ).0,
        *final(size) == head_framing(entry_views(entries@), *old(size)).1,
        head_framing(entry_views(entries@), *old(size)).0.len() <= 38,
{
    proof {
        reveal_strlit("transfer-encoding");
        reveal_strlit("content-length");
        reveal_strlit("\r\ntransfer-encoding: chunked");
    }
    let ghost before = contents(*buf);
    match *size {
        BodySize::NoBody => {
            assert(before + Seq::<u8>::empty() =~= before);
            return ;
        },
        BodySize::Stream => {
            if contains_name(entries, str_bytes("transfer-encoding")) {
                assert(before + Seq::<u8>::empty() =~= before);
                return ;
            }
            put_str(buf, "\r\ntransfer-encoding: chunked");
        },
        BodySize::Sized(n) => {
            if contains_name(entries, str_bytes("content-length")) {
                assert(before + Seq::<u8>::empty() =~= before);
                return ;
            }
            write_length_header(buf, n);
        },
    }
    *size = BodySize::NoBody;
}


/// What the headers of a response have settled so far.
#[derive(Clone, Copy, Debug, PartialEq, Eq, Structural)]
pub struct Settled {
    /// The connection is to close.
    pub close: bool,
    /// A framing header was met, or none is to be written.
    pub skip_len: bool,
    /// A `date` header was met.
    pub skip_date: bool,
    /// The framing that the headers call for.
    pub coding: TransferCoding,
}

/// What a header of the given name and value settles, and whether the
/// header is dropped rather than written.
///
/// A `connection` header is dropped while the connection is marked to
/// close; otherwise its value decides whether it is. `upgrade` switches to
/// upgrade framing, `date` suppresses the date of this layer,
/// `content-length` and `transfer-encoding: chunked` settle the framing.
pub open spec fn heed(s: Settled, name: Seq<u8>, value: Seq<u8>) -> Result<
    (Settled, bool),
    ProtoError,
> {
    if name == ascii("connection"@) {
        if s.close {
            Ok((s, true))
        } else if !is_visible(value) {
            Err(ProtoError::Header)
        } else {
            Ok((Settled { close: close_after(value, 0, false), ..s }, false))
        }
    } else if name == ascii("upgrade"@) {
        Ok((Settled { coding: TransferCoding::Upgrade, ..s }, false))
    } else if name == ascii("date"@) {
        Ok((Settled { skip_date: true, ..s }, false))
    } else if name == ascii("content-length"@) {
        match content_length(value) {
            Some(n) => Ok((Settled { coding: TransferCoding::Length(n), skip_len: true, ..s }, false)),
            None => Err(ProtoError::Header),
        }
    } else if name == ascii("transfer-encoding"@) {
        if !is_visible(value) {
            Err(ProtoError::Header)
        } else if names_token(value, 0, ascii("chunked"@)) {
            Ok((Settled { coding: TransferCoding::chunked_start(), skip_len: true, ..s }, false))
        } else {
            Ok((s, false))
        }
    } else {
        Ok((s, false))
    }
}

/// Computes what a header settles; see [`heed`].
pub fn heed_header(s: Settled, name: &[u8], value: &[u8]) -> (r: Result<(Settled, bool), ProtoError>)
    ensures
        r == heed(s, name@, value@),
{
    proof {
        reveal_strlit("connection");
        reveal_strlit("upgrade");
        reveal_strlit("date");
        reveal_strlit("content-length");
        reveal_strlit("transfer-encoding");
        reveal_strlit("chunked");
    }
    let mut s = s;
    if bytes_eq(name, str_bytes("connection")) {
        if s.close {
            return Ok((s, true));
        }
        if !check_visible(value) {
            return Err(ProtoError::Header);
        }
        s.close = connection_close(value, false);
    } else if bytes_eq(name, str_bytes("upgrade")) {
        s.coding = TransferCoding::upgrade();
    } else if bytes_eq(name, str_bytes("date")) {
        s.skip_date = true;
    } else if bytes_eq(name, str_bytes("content-length")) {
        match parse_content_length(value) {
            Some(n) => {
                s.coding = TransferCoding::length(n);
                s.skip_len = true;
            },
            None => {
                return Err(ProtoError::Header);
            },
        }
    } else if bytes_eq(name, str_bytes("transfer-encoding")) {
        if !check_visible(value) {
            return Err(ProtoError::Header);
        }
        if has_token(value, str_bytes("chunked")) {
            s.coding = TransferCoding::encode_chunked();
            s.skip_len = true;
        }
    }
    Ok((s, false))
}

/// Where the walk over the headers of a response stands.
pub ghost struct HeadState {
    /// What the headers met so far have settled.
    pub settled: Settled,
    /// The name of the entry last met.
    pub name: Seq<u8>,
    /// The bytes written so far.
    pub out: Seq<u8>,
}

/// The bytes written for one entry: a header line of its own where the
/// entry names its header, a further value on the line before where it
/// does not.
pub open spec fn entry_line(entry: (Option<Seq<u8>>, Seq<u8>)) -> Seq<u8> {
    match entry.0 {
        Some(name) => crlf() + name + ascii(": "@) + entry.1,
        None => ascii(", "@) + entry.1,
    }
}

/// The name under which an entry stands: its own, or that of the entry
/// before.
pub open spec fn entry_name(current: Seq<u8>, entry: (Option<Seq<u8>>, Seq<u8>)) -> Seq<u8> {
    match entry.0 {
        Some(n) => n,
        None => current,
    }
}

/// What one entry does to the head that is being written: it settles what
/// [`heed`] says, and is written as it is unless it is dropped.
pub open spec fn apply_entry(st: HeadState, entry: (Option<Seq<u8>>, Seq<u8>)) -> Result<
    HeadState,
    ProtoError,
> {
    let name = entry_name(st.name, entry);
    match heed(st.settled, name, entry.1) {
        Ok((settled, dropped)) => Ok(
            HeadState {
                settled,
                name,
                out: if dropped {
                    st.out
                } else {
                    st.out + entry_line(entry)
                },
            },
        ),
        Err(e) => Err(e),
    }
}

/// What the entries from position `i` on do, in turn.
pub open spec fn apply_entries(
    st: HeadState,
    entries: Seq<(Option<Seq<u8>>, Seq<u8>)>,
    i: int,
) -> Result<HeadState, ProtoError>
    decreases entries.len() - i,
{
    if i < 0 || i >= entries.len() {
        Ok(st)
    } else {
        match apply_entry(st, entries[i]) {
            Ok(next) => apply_entries(next, entries, i + 1),
            Err(e) => Err(e),
        }
    }
}

/// A written head: its bytes, the framing of the body that follows, and
/// whether the connection closes after it.
pub ghost struct Head {
    pub bytes: Seq<u8>,
    pub coding: TransferCoding,
    pub close: bool,
}

/// The framing header written where the headers settle no framing, and the
/// framing that goes with it.
pub open spec fn size_framing(size: BodySize) -> (Seq<u8>, TransferCoding) {
    match size {
        BodySize::NoBody => (Seq::empty(), TransferCoding::Eof),
        BodySize::Stream => (chunked_header(), TransferCoding::chunked_start()),
        BodySize::Sized(n) => (length_header(n as nat), TransferCoding::Length(n as u64)),
    }
}

/// What ends a head once its headers are walked: the framing header that
/// the declared body size calls for, unless the headers settled the
/// framing; then `connection: close` where the connection closes; then the
/// date, unless the headers held one; then the empty line. With it, the
/// framing of the body.
pub open spec fn head_tail(s: Settled, size: BodySize, date: Seq<u8>) -> (Seq<u8>, TransferCoding) {
    let framing = if s.skip_len {
        (Seq::empty(), s.coding)
    } else {
        size_framing(size)
    };
    let close_part = if s.close {
        close_header()
    } else {
        Seq::empty()
    };
    let date_part = if s.skip_date {
        Seq::empty()
    } else {
        ascii("\r\ndate: "@) + date
    };
    (framing.0 + close_part + date_part + ascii("\r\n\r\n"@), framing.1)
}

/// Where the walk over the headers begins: nothing is written, and an
/// entry without a name of its own would stand under `te`.
pub open spec fn walk_start(settled: Settled) -> HeadState {
    HeadState { settled, name: ascii("te"@), out: Seq::empty() }
}

/// The part of a response head behind the status line.
///
/// `close` tells whether the connection is marked to close, `head_method`
/// whether the request was `HEAD`, `date` is the cached date text and
/// `skip_len` tells that no framing header is to be added. The headers are
/// written as [`apply_entry`] says, then what [`head_tail`] says. The
/// response to a `HEAD` request begins with the framing header that its
/// body would have had, as [`head_framing`] says, and has no body.
pub open spec fn headers_spec(
    close: bool,
    head_method: bool,
    date: Seq<u8>,
    entries: Seq<(Option<Seq<u8>>, Seq<u8>)>,
    size: BodySize,
    skip_len: bool,
) -> Result<Head, ProtoError> {
    let pre = if head_method {
        head_framing(entries, size)
    } else {
        (Seq::empty(), size)
    };
    let start = walk_start(
        Settled { close, skip_len, skip_date: false, coding: TransferCoding::Eof },
    );
    match apply_entries(start, entries, 0) {
        Err(e) => Err(e),
        Ok(st) => {
            let tail = head_tail(st.settled, pre.1, date);
            Ok(
                Head {
                    bytes: pre.0 + st.out + tail.0,
                    coding: if head_method {
                        TransferCoding::Eof
                    } else {
                        tail.1
                    },
                    close: st.settled.close,
                },
            )
        },
    }
}

/// An upper bound on the bytes written for one entry.
pub open spec fn entry_size(entry: (Option<Seq<u8>>, Seq<u8>)) -> nat {
    (match entry.0 {
        Some(n) => n.len(),
        None => 0,
    }) + entry.1.len() + 4
}

/// An upper bound on the bytes written for the first `upto` entries.
pub open spec fn entries_size(entries: Seq<(Option<Seq<u8>>, Seq<u8>)>, upto: int) -> nat
    decreases upto,
{
    if upto <= 0 {
        0
    } else {
        entries_size(entries, upto - 1) + entry_size(entries[upto - 1])
    }
}

/// An upper bound on the length of a response head with the given entries
/// and date text.
pub open spec fn head_bound(entries: Seq<(Option<Seq<u8>>, Seq<u8>)>, date_len: nat) -> nat {
    192 + date_len + entries_size(entries, entries.len() as int)
}

proof fn lemma_entries_size_monotone(entries: Seq<(Option<Seq<u8>>, Seq<u8>)>, i: int, j: int)
    requires
        0 <= i <= j,
    ensures
        entries_size(entries, i) <= entries_size(entries, j),
    decreases j - i,
{
    if i < j {
        lemma_entries_size_monotone(entries, i, j - 1);
    }
}

/// A connection that is marked to close stays so, whatever the headers
/// say.
pub proof fn lemma_close_kept(st: HeadState, entries: Seq<(Option<Seq<u8>>, Seq<u8>)>, i: int)
    requires
        st.settled.close,
    ensures
        apply_entries(st, entries, i) matches Ok(end) ==> end.settled.close,
    decreases entries.len() - i,
{
    if 0 <= i < entries.len() {
        match apply_entry(st, entries[i]) {
            Ok(next) => {
                lemma_close_kept(next, entries, i + 1);
            },
            Err(e) => {},
        }
    }
}

/// The head of a response on a connection that is marked to close says
/// so.
pub proof fn lemma_head_keeps_close(
    head_method: bool,
    connect_method: bool,
    date: Seq<u8>,
    version: Version,
    code: u16,
    reason: Option<Seq<char>>,
    entries: Seq<(Option<Seq<u8>>, Seq<u8>)>,
    size: BodySize,
)
    ensures
        head_spec(true, head_method, connect_method, date, version, code, reason, entries, size)
            matches Ok(head) ==> head.close,
{
    let skip_len = skips_framing(connect_method, code);
    lemma_close_kept(
        walk_start(
            Settled { close: true, skip_len, skip_date: false, coding: TransferCoding::Eof },
        ),
        entries,
        0,
    );
}

/// Writes one entry as [`entry_line`] says.
pub fn write_entry(buf: &mut BytesMut, entry: &HeaderEntry)
    requires
        contents(*old(buf)).len() + entry_size(entry@) <= usize::MAX,
    ensures
        contents(*final(buf)) == contents(*old(buf)) + entry_line(entry@),
        entry_line(entry@).len() <= entry_size(entry@),
{
    proof {
        reveal_strlit("\r\n");
        reveal_strlit(": ");
        reveal_strlit(", ");
    }
    let ghost before = contents(*buf);
    match &entry.name {
        Some(name) => {
            put_str(buf, "\r\n");
            buf_extend(buf, name.as_slice());
            put_str(buf, ": ");
            buf_extend(buf, entry.value.as_slice());
            assert(contents(*buf) =~= before + entry_line(entry@));
        },
        None => {
            put_str(buf, ", ");
            buf_extend(buf, entry.value.as_slice());
        },
    }
}

/// Writes what ends a head; see [`head_tail`].
pub fn write_tail(buf: &mut BytesMut, s: Settled, size: BodySize, date: &[u8]) -> (coding: TransferCoding)
    requires
        contents(*old(buf)).len() + 90 + date@.len() <= usize::MAX,
    ensures
        contents(*final(buf)) == contents(*old(buf)) + head_tail(s, size, date@).0,
        coding == head_tail(s, size, date@).1,
{
    proof {
        reveal_strlit("\r\ntransfer-encoding: chunked");
        reveal_strlit("\r\nconnection: close");
        reveal_strlit("\r\ndate: ");
        reveal_strlit("\r\n\r\n");
    }
    let ghost before = contents(*buf);
    let mut coding = s.coding;
    if !s.skip_len {
        match size {
            BodySize::NoBody => {
                coding = TransferCoding::eof();
            },
            BodySize::Stream => {
                put_str(buf, "\r\ntransfer-encoding: chunked");
                coding = TransferCoding::encode_chunked();
            },
            BodySize::Sized(n) => {
                write_length_header(buf, n);
                coding = TransferCoding::length(n as u64);
            },
        }
    }
    if s.close {
        put_str(buf, "\r\nconnection: close");
    }
    if !s.skip_date {
        put_str(buf, "\r\ndate: ");
        buf_extend(buf, date);
    }
    put_str(buf, "\r\n\r\n");
    assert(contents(*buf) =~= before + head_tail(s, size, date@).0);
    coding
}

/// Walks the entries, writing each that is not dropped, and tells what
/// they settle. On failure, `buf` holds what it held, and after it what
/// was written before the failure.
pub fn write_entries(start: Settled, entries: &Vec<HeaderEntry>, buf: &mut BytesMut) -> (r: Result<
    Settled,
    ProtoError,
>)
    requires
        contents(*old(buf)).len() + entries_size(entry_views(entries@), entries@.len() as int)
            <= usize::MAX,
    ensures
        match r {
            Ok(settled) => apply_entries(walk_start(start), entry_views(entries@), 0) matches Ok(
                st,
            ) && st.settled == settled && contents(*final(buf)) == contents(*old(buf)) + st.out
                && st.out.len() <= entries_size(entry_views(entries@), entries@.len() as int),
            Err(e) => apply_entries(walk_start(start), entry_views(entries@), 0) == Err::<
                HeadState,
                ProtoError,
            >(e),
        },
        contents(*old(buf)).len() <= contents(*final(buf)).len(),
        contents(*final(buf)).take(contents(*old(buf)).len() as int) == contents(*old(buf)),
{
    proof {
        reveal_strlit("te");
    }
    let ghost before = contents(*buf);
    let ghost views = entry_views(entries@);
    let ghost first = walk_start(start);
    let mut settled = start;
    let mut name: &[u8] = str_bytes("te");
    let ghost mut st = first;
    let mut i: usize = 0;
    assert(before + st.out =~= before);
    while i < entries.len()
        invariant
            i <= entries@.len(),
            views == entry_views(entries@),
            before == contents(*old(buf)),
            first == walk_start(start),
            st.settled == settled,
            st.name == name@,
            contents(*buf) == before + st.out,
            st.out.len() <= entries_size(views, i as int),
            before.len() + entries_size(views, entries@.len() as int) <= usize::MAX,
            apply_entries(first, views, 0) == apply_entries(st, views, i as int),
        decreases entries.len() - i,
    {
        let entry = &entries[i];
        assert(views[i as int] == entry@);
        proof {
            lemma_entries_size_monotone(views, i + 1, entries@.len() as int);
        }
        match &entry.name {
            Some(n) => {
                name = n.as_slice();
            },
            None => {},
        }
        assert(name@ == entry_name(st.name, entry@));
        match heed_header(settled, name, entry.value.as_slice()) {
            Ok((next, dropped)) => {
                settled = next;
                if !dropped {
                    write_entry(buf, entry);
                }
                proof {
                    st = apply_entry(st, entry@).unwrap();
                    assert(contents(*buf) =~= before + st.out);
                }
            },
            Err(e) => {
                assert((before + st.out).take(before.len() as int) =~= before);
                return Err(e);
            },
        }
        i += 1;
    }
    assert((before + st.out).take(before.len() as int) =~= before);
    Ok(settled)
}


/// Writes the part of a response head behind the status line for the
/// given header entries, and tells the framing of the body and whether
/// the connection closes; see [`headers_spec`]. On failure `buf` is as it
/// was.
pub fn write_headers(
    close: bool,
    head_method: bool,
    date: &[u8],
    entries: &Vec<HeaderEntry>,
    size: BodySize,
    skip_len: bool,
    buf: &mut BytesMut,
) -> (r: Result<(TransferCoding, bool), ProtoError>)
    requires
        contents(*old(buf)).len() + 128 + date@.len() + entries_size(
            entry_views(entries@),
            entries@.len() as int,
        ) <= usize::MAX,
    ensures
        match r {
            Ok((coding, closes)) => {
                &&& headers_spec(close, head_method, date@, entry_views(entries@), size, skip_len)
                    matches Ok(head)
                &&& head.coding == coding
                &&& head.close == closes
                &&& contents(*final(buf)) == contents(*old(buf)) + head.bytes
                &&& close ==> closes
            },
            Err(e) => {
                &&& headers_spec(close, head_method, date@, entry_views(entries@), size, skip_len)
                    == Err::<Head, ProtoError>(e)
                &&& contents(*final(buf)) == contents(*old(buf))
            },
        },
{
    let ghost before = contents(*buf);
    let ghost views = entry_views(entries@);
    let len = buf_len(buf);
    let mut size = size;
    proof {
        if close {
            lemma_close_kept(
                walk_start(
                    Settled { close, skip_len, skip_date: false, coding: TransferCoding::Eof },
                ),
                views,
                0,
            );
        }
    }
    if head_method {
        try_remove_body(buf, entries, &mut size);
    } else {
        assert(before + Seq::<u8>::empty() =~= before);
    }
    let ghost pre = contents(*buf).skip(before.len() as int);
    assert(contents(*buf) =~= before + pre);
    let start = Settled { close, skip_len, skip_date: false, coding: TransferCoding::eof() };
    match write_entries(start, entries, buf) {
        Ok(settled) => {
            let ghost st = apply_entries(walk_start(start), views, 0).unwrap();
            let coding = write_tail(buf, settled, size, date);
            let ghost tail = head_tail(settled, size, date@);
            assert(contents(*buf) =~= before + (pre + st.out + tail.0));
            if head_method {
                Ok((TransferCoding::eof(), settled.close))
            } else {
                Ok((coding, settled.close))
            }
        },
        Err(e) => {
            let ghost written = contents(*buf);
            buf_truncate(buf, len);
            assert(contents(*buf) =~= before) by {
                let mid = before + pre;
                assert(written.take(mid.len() as int).take(before.len() as int) =~= written.take(
                    before.len() as int,
                ));
                assert(mid.take(before.len() as int) =~= before);
            }
            Err(e)
        },
    }
}

/// The status, version and headers of a response.
pub struct ResponseParts {
    pub status: StatusCode,
    pub version: Version,
    pub headers: HeaderMap<HeaderValue>,
}

/// Whether a response of the given status gets no framing header: a
/// switch of protocols, and success in answer to `CONNECT`.
pub open spec fn skips_framing(connect_method: bool, code: u16) -> bool {
    code == 101 || (connect_method && 200 <= code < 300)
}

/// A whole response head.
///
/// A status of the 1xx class is refused, but for `101 Switching Protocols`
/// and what [`skips_framing`] admits. The head is the status line followed
/// by what [`headers_spec`] says.
pub open spec fn head_spec(
    close: bool,
    head_method: bool,
    connect_method: bool,
    date: Seq<u8>,
    version: Version,
    code: u16,
    reason: Option<Seq<char>>,
    entries: Seq<(Option<Seq<u8>>, Seq<u8>)>,
    size: BodySize,
) -> Result<Head, ProtoError> {
    if !skips_framing(connect_method, code) && 100 <= code < 200 {
        Err(ProtoError::Status)
    } else {
        match headers_spec(
            close,
            head_method,
            date,
            entries,
            size,
            skips_framing(connect_method, code),
        ) {
            Ok(head) => Ok(
                Head {
                    bytes: status_line(version, code, reason) + head.bytes,
                    coding: head.coding,
                    close: head.close,
                },
            ),
            Err(e) => Err(e),
        }
    }
}

/// Writes a whole response head for the given reason phrase and header
/// entries, and tells the framing of the body and whether the connection
/// closes; see [`head_spec`]. On failure `buf` is as it was.
pub fn write_head(
    close: bool,
    head_method: bool,
    connect_method: bool,
    date: &[u8],
    version: Version,
    status: StatusCode,
    reason: Option<&str>,
    entries: &Vec<HeaderEntry>,
    size: BodySize,
    buf: &mut BytesMut,
) -> (r: Result<(TransferCoding, bool), ProtoError>)
    requires
        reason matches Some(text) ==> text.is_ascii() && text@.len() <= 31,
        contents(*old(buf)).len() + head_bound(entry_views(entries@), date@.len())
            <= usize::MAX,
    ensures
        match r {
            Ok((coding, closes)) => {
                &&& head_spec(
                    close,
                    head_method,
                    connect_method,
                    date@,
                    version,
                    status.value(),
                    reason_text(reason),
                    entry_views(entries@),
                    size,
                ) matches Ok(h)
                &&& h.coding == coding
                &&& h.close == closes
                &&& contents(*final(buf)) == contents(*old(buf)) + h.bytes
                &&& close ==> closes
            },
            Err(e) => {
                &&& head_spec(
                    close,
                    head_method,
                    connect_method,
                    date@,
                    version,
                    status.value(),
                    reason_text(reason),
                    entry_views(entries@),
                    size,
                ) == Err::<Head, ProtoError>(e)
                &&& contents(*final(buf)) == contents(*old(buf))
            },
        },
{
    let code = status.as_u16();
    let skip_len = code == 101 || (connect_method && status.is_success());
    if !skip_len && status.is_informational() {
        return Err(ProtoError::Status);
    }
    write_lines(close, head_method, date, version, status, reason, entries, size, skip_len, buf)
}

/// Writes the status line and what follows it; see [`status_line`] and
/// [`headers_spec`]. On failure `buf` is as it was.
fn write_lines(
    close: bool,
    head_method: bool,
    date: &[u8],
    version: Version,
    status: StatusCode,
    reason: Option<&str>,
    entries: &Vec<HeaderEntry>,
    size: BodySize,
    skip_len: bool,
    buf: &mut BytesMut,
) -> (r: Result<(TransferCoding, bool), ProtoError>)
    requires
        reason matches Some(text) ==> text.is_ascii() && text@.len() <= 31,
        contents(*old(buf)).len() + head_bound(entry_views(entries@), date@.len())
            <= usize::MAX,
    ensures
        match r {
            Ok((coding, closes)) => {
                &&& headers_spec(close, head_method, date@, entry_views(entries@), size, skip_len)
                    matches Ok(h)
                &&& h.coding == coding
                &&& h.close == closes
                &&& contents(*final(buf)) == contents(*old(buf)) + (status_line(
                    version,
                    status.value(),
                    reason_text(reason),
                ) + h.bytes)
                &&& close ==> closes
            },
            Err(e) => {
                &&& headers_spec(close, head_method, date@, entry_views(entries@), size, skip_len)
                    == Err::<Head, ProtoError>(e)
                &&& contents(*final(buf)) == contents(*old(buf))
            },
        },
{
    let ghost before = contents(*buf);
    let len = buf_len(buf);
    let ghost line = status_line(version, status.value(), reason_text(reason));
    write_status_line(buf, version, status, reason);
    match write_headers(close, head_method, date, entries, size, skip_len, buf) {
        Ok((coding, closes)) => {
            proof {
                let head = headers_spec(
                    close,
                    head_method,
                    date@,
                    entry_views(entries@),
                    size,
                    skip_len,
                ).unwrap();
                lemma_concat_assoc(before, line, head.bytes);
            }
            Ok((coding, closes))
        },
        Err(e) => {
            buf_truncate(buf, len);
            proof {
                lemma_concat_take(before, line);
            }
            Err(e)
        },
    }
}

/// The interim response that invites a request body.
pub open spec fn continue_response() -> Seq<u8> {
    ascii("HTTP/1.1 100 Continue\r\n\r\n"@)
}

/// Writes the interim response `100 Continue`.
pub fn encode_continue(buf: &mut BytesMut)
    requires
        contents(*old(buf)).len() + 25 <= usize::MAX,
    ensures
        contents(*final(buf)) == contents(*old(buf)) + continue_response(),
{
    proof {
        reveal_strlit("HTTP/1.1 100 Continue\r\n\r\n");
    }
    put_str(buf, "HTTP/1.1 100 Continue\r\n\r\n");
}

/// What follows the status line in a response that only reports an error:
/// an empty body, and the end of the connection.
pub open spec fn status_only_tail() -> Seq<u8> {
    ascii("\r\ncontent-length: 0\r\nconnection: close\r\n\r\n"@)
}

impl<const HEADER_LIMIT: usize> Context<HEADER_LIMIT> {
    /// Writes the part of a response head behind the status line into
    /// `buf`, and tells the framing of the body.
    ///
    /// `headers` are the headers of the response, `size` is what its body
    /// declares, `skip_len` tells that no framing header is to be added.
    /// On success the connection is marked to close where the headers ask
    /// for it, and the emptied header map is kept for reuse. On failure
    /// `buf` and the context are as they were.
    pub fn encode_headers(
        &mut self,
        headers: HeaderMap<HeaderValue>,
        size: BodySize,
        buf: &mut BytesMut,
        skip_len: bool,
    ) -> (r: Result<TransferCoding, ProtoError>)
        requires
            contents(*old(buf)).len() + head_bound(drained(headers), old(self).date@.len())
                <= usize::MAX,
        ensures
            match r {
                Ok(coding) => headers_spec(
                    old(self).close,
                    old(self).head_method,
                    old(self).date@,
                    drained(headers),
                    size,
                    skip_len,
                ) matches Ok(head) && coding == head.coding && contents(*final(buf)) == contents(
                    *old(buf),
                ) + head.bytes && final(self).close == head.close && drained(
                    final(self).header_cache,
                ).len() == 0,
                Err(e) => headers_spec(
                    old(self).close,
                    old(self).head_method,
                    old(self).date@,
                    drained(headers),
                    size,
                    skip_len,
                ) == Err::<Head, ProtoError>(e) && contents(*final(buf)) == contents(*old(buf))
                    && final(self).close == old(self).close && final(self).header_cache == old(
                    self,
                ).header_cache,
            },
            old(self).close ==> final(self).close,
            final(self).head_method == old(self).head_method,
            final(self).connect_method == old(self).connect_method,
            final(self).expect_continue == old(self).expect_continue,
            final(self).date == old(self).date,
    {
        let mut headers = headers;
        let entries = drain_headers(&mut headers);
        match write_headers(
            self.close,
            self.head_method,
            self.date.as_slice(),
            &entries,
            size,
            skip_len,
            buf,
        ) {
            Ok((coding, close)) => {
                self.close = close;
                self.header_cache = headers;
                Ok(coding)
            },
            Err(e) => Err(e),
        }
    }

    /// Writes the head of a response into `buf`, and tells the framing of
    /// the body.
    ///
    /// `parts` are status, version and headers of the response, `size` is
    /// what its body declares. See [`head_spec`] for what is written. On
    /// success the connection is marked to close where the headers ask for
    /// it, and the emptied header map is kept for reuse. On failure `buf`
    /// and the context are as they were.
    pub fn encode_head(&mut self, parts: ResponseParts, size: BodySize, buf: &mut BytesMut) -> (r:
        Result<TransferCoding, ProtoError>)
        requires
            contents(*old(buf)).len() + head_bound(drained(parts.headers), old(self).date@.len())
                <= usize::MAX,
        ensures
            match r {
                Ok(coding) => head_spec(
                    old(self).close,
                    old(self).head_method,
                    old(self).connect_method,
                    old(self).date@,
                    parts.version,
                    parts.status.value(),
                    canonical_reason(parts.status.value()),
                    drained(parts.headers),
                    size,
                ) matches Ok(head) && coding == head.coding && contents(*final(buf)) == contents(
                    *old(buf),
                ) + head.bytes && final(self).close == head.close && drained(
                    final(self).header_cache,
                ).len() == 0,
                Err(e) => head_spec(
                    old(self).close,
                    old(self).head_method,
                    old(self).connect_method,
                    old(self).date@,
                    parts.version,
                    parts.status.value(),
                    canonical_reason(parts.status.value()),
                    drained(parts.headers),
                    size,
                ) == Err::<Head, ProtoError>(e) && contents(*final(buf)) == contents(*old(buf))
                    && final(self).close == old(self).close && final(self).header_cache == old(
                    self,
                ).header_cache,
            },
            old(self).close ==> final(self).close,
            final(self).head_method == old(self).head_method,
            final(self).connect_method == old(self).connect_method,
            final(self).expect_continue == old(self).expect_continue,
            final(self).date == old(self).date,
    {
        let reason = reason_phrase(parts.status.as_u16());
        let mut headers = parts.headers;
        let entries = drain_headers(&mut headers);
        match write_head(
            self.close,
            self.head_method,
            self.connect_method,
            self.date.as_slice(),
            parts.version,
            parts.status,
            reason,
            &entries,
            size,
            buf,
        ) {
            Ok((coding, close)) => {
                self.close = close;
                self.header_cache = headers;
                Ok(coding)
            },
            Err(e) => Err(e),
        }
    }

    /// Answers a request that cannot be served: the connection is marked
    /// to close, and a response that holds nothing but the status is
    /// written into `buf`.
    pub fn request_error(&mut self, status: StatusCode, buf: &mut BytesMut)
        requires
            contents(*old(buf)).len() + 128 <= usize::MAX,
        ensures
            final(self).close,
            contents(*final(buf)) == contents(*old(buf)) + status_line(
                Version::Http11,
                status.value(),
                canonical_reason(status.value()),
            ) + status_only_tail(),
            final(self).head_method == old(self).head_method,
            final(self).connect_method == old(self).connect_method,
            final(self).expect_continue == old(self).expect_continue,
            final(self).date == old(self).date,
            final(self).header_cache == old(self).header_cache,
    {
        proof {
            reveal_strlit("\r\ncontent-length: 0\r\nconnection: close\r\n\r\n");
        }
        self.close = true;
        encode_version_status_reason(buf, Version::Http11, status);
        put_str(buf, "\r\ncontent-length: 0\r\nconnection: close\r\n\r\n");
    }
}

/// Whether a response head with the given header entries and date text
/// fits behind `buffered` bytes in a buffer.
pub open spec fn head_fits(
    buffered: nat,
    entries: Seq<(Option<Seq<u8>>, Seq<u8>)>,
    date_len: nat,
) -> bool {
    buffered + head_bound(entries, date_len) <= usize::MAX
}

/// Sums the sizes of the entries; see [`entries_size`]. `None` tells that
/// the sum is beyond the largest length that a buffer can have.
pub fn entries_bound(entries: &Vec<HeaderEntry>) -> (r: Option<usize>)
    ensures
        match r {
            Some(n) => n == entries_size(entry_views(entries@), entries@.len() as int),
            None => entries_size(entry_views(entries@), entries@.len() as int) > usize::MAX,
        },
{
    let ghost views = entry_views(entries@);
    let mut sum: usize = 0;
    let mut i: usize = 0;
    while i < entries.len()
        invariant
            i <= entries@.len(),
            views == entry_views(entries@),
            sum == entries_size(views, i as int),
        decreases entries.len() - i,
    {
        let entry = &entries[i];
        assert(views[i as int] == entry@);
        proof {
            lemma_entries_size_monotone(views, i + 1, entries@.len() as int);
        }
        let name_len = match &entry.name {
            Some(n) => n.len(),
            None => 0,
        };
        let value_len = entry.value.len();
        if name_len > usize::MAX - 4 || value_len > usize::MAX - 4 - name_len {
            return None;
        }
        let size = name_len + value_len + 4;
        if sum > usize::MAX - size {
            return None;
        }
        sum = sum + size;
        i += 1;
    }
    Some(sum)
}

/// Tells whether a response head fits; see [`head_fits`].
pub fn head_room(buffered: usize, entries: &Vec<HeaderEntry>, date_len: usize) -> (r: bool)
    ensures
        r == head_fits(buffered as nat, entry_views(entries@), date_len as nat),
{
    match entries_bound(entries) {
        None => false,
        Some(n) => {
            if date_len > usize::MAX - 192 {
                return false;
            }
            let fixed = 192 + date_len;
            if n > usize::MAX - fixed {
                return false;
            }
            let head = fixed + n;
            buffered <= usize::MAX - head
        },
    }
}

impl<const HEADER_LIMIT: usize> Context<HEADER_LIMIT> {
    /// What `encode_head` does to the context and the buffer and returns,
    /// for a response of the given version, status and reason phrase with
    /// the given header entries and declared body size: on success the
    /// head that [`head_spec`] states is behind what the buffer held, the
    /// connection is marked to close where the head says so, and the
    /// header cache is empty; on failure the buffer, the mark and the
    /// cache are as they were. What the request asked for and the date
    /// text stay in either case.
    pub open spec fn head_encoded(
        self,
        after: Self,
        buffered: Seq<u8>,
        written: Seq<u8>,
        version: Version,
        code: u16,
        reason: Option<Seq<char>>,
        entries: Seq<(Option<Seq<u8>>, Seq<u8>)>,
        size: BodySize,
        r: Result<TransferCoding, ProtoError>,
    ) -> bool {
        &&& after.head_method == self.head_method
        &&& after.connect_method == self.connect_method
        &&& after.expect_continue == self.expect_continue
        &&& after.date == self.date
        &&& match r {
            Ok(coding) => {
                &&& head_spec(
                    self.close,
                    self.head_method,
                    self.connect_method,
                    self.date@,
                    version,
                    code,
                    reason,
                    entries,
                    size,
                ) matches Ok(head)
                &&& coding == head.coding
                &&& written == buffered + head.bytes
                &&& after.close == head.close
                &&& drained(after.header_cache).len() == 0
            },
            Err(e) => {
                &&& head_spec(
                    self.close,
                    self.head_method,
                    self.connect_method,
                    self.date@,
                    version,
                    code,
                    reason,
                    entries,
                    size,
                ) == Err::<Head, ProtoError>(e)
                &&& written == buffered
                &&& after.close == self.close
                &&& after.header_cache == self.header_cache
            },
        }
    }

    /// What `encode_headers` does to the context and the buffer and
    /// returns; as [`Context::head_encoded`], for the part of a head
    /// behind the status line that [`headers_spec`] states.
    pub open spec fn headers_encoded(
        self,
        after: Self,
        buffered: Seq<u8>,
        written: Seq<u8>,
        entries: Seq<(Option<Seq<u8>>, Seq<u8>)>,
        size: BodySize,
        skip_len: bool,
        r: Result<TransferCoding, ProtoError>,
    ) -> bool {
        &&& after.head_method == self.head_method
        &&& after.connect_method == self.connect_method
        &&& after.expect_continue == self.expect_continue
        &&& after.date == self.date
        &&& match r {
            Ok(coding) => {
                &&& headers_spec(self.close, self.head_method, self.date@, entries, size, skip_len)
                    matches Ok(head)
                &&& coding == head.coding
                &&& written == buffered + head.bytes
                &&& after.close == head.close
                &&& drained(after.header_cache).len() == 0
            },
            Err(e) => {
                &&& headers_spec(self.close, self.head_method, self.date@, entries, size, skip_len)
                    == Err::<Head, ProtoError>(e)
                &&& written == buffered
                &&& after.close == self.close
                &&& after.header_cache == self.header_cache
            },
        }
    }

    /// Writes the head of a response into `buf` where it fits, and tells
    /// the framing of the body.
    ///
    /// The header entries are taken out of the map and their sizes are
    /// added up. `None` tells that the head does not fit behind what `buf`
    /// holds; then `buf` and the context are as they were. Where the head
    /// fits, the result is that of [`Context::encode_head`].
    pub fn try_encode_head(&mut self, parts: ResponseParts, size: BodySize, buf: &mut BytesMut) -> (r:
        Option<Result<TransferCoding, ProtoError>>)
        ensures
            match r {
                Some(res) => {
                    &&& head_fits(
                        contents(*old(buf)).len(),
                        drained(parts.headers),
                        old(self).date@.len(),
                    )
                    &&& old(self).head_encoded(
                        *final(self),
                        contents(*old(buf)),
                        contents(*final(buf)),
                        parts.version,
                        parts.status.value(),
                        canonical_reason(parts.status.value()),
                        drained(parts.headers),
                        size,
                        res,
                    )
                },
                None => {
                    &&& !head_fits(
                        contents(*old(buf)).len(),
                        drained(parts.headers),
                        old(self).date@.len(),
                    )
                    &&& contents(*final(buf)) == contents(*old(buf))
                    &&& *final(self) == *old(self)
                },
            },
    {
        let reason = reason_phrase(parts.status.as_u16());
        let mut headers = parts.headers;
        let entries = drain_headers(&mut headers);
        if !head_room(buf_len(buf), &entries, self.date.len()) {
            return None;
        }
        match write_head(
            self.close,
            self.head_method,
            self.connect_method,
            self.date.as_slice(),
            parts.version,
            parts.status,
            reason,
            &entries,
            size,
            buf,
        ) {
            Ok((coding, close)) => {
                self.close = close;
                self.header_cache = headers;
                Some(Ok(coding))
            },
            Err(e) => Some(Err(e)),
        }
    }

    /// Writes the part of a response head behind the status line into
    /// `buf` where it fits, and tells the framing of the body.
    ///
    /// `None` tells that it does not fit behind what `buf` holds; then
    /// `buf` and the context are as they were. Where it fits, the result
    /// is that of [`Context::encode_headers`].
    pub fn try_encode_headers(
        &mut self,
        headers: HeaderMap<HeaderValue>,
        size: BodySize,
        buf: &mut BytesMut,
        skip_len: bool,
    ) -> (r: Option<Result<TransferCoding, ProtoError>>)
        ensures
            match r {
                Some(res) => {
                    &&& head_fits(
                        contents(*old(buf)).len(),
                        drained(headers),
                        old(self).date@.len(),
                    )
                    &&& old(self).headers_encoded(
                        *final(self),
                        contents(*old(buf)),
                        contents(*final(buf)),
                        drained(headers),
                        size,
                        skip_len,
                        res,
                    )
                },
                None => {
                    &&& !head_fits(
                        contents(*old(buf)).len(),
                        drained(headers),
                        old(self).date@.len(),
                    )
                    &&& contents(*final(buf)) == contents(*old(buf))
                    &&& *final(self) == *old(self)
                },
            },
    {
        let mut headers = headers;
        let entries = drain_headers(&mut headers);
        if !head_room(buf_len(buf), &entries, self.date.len()) {
            return None;
        }
        match write_headers(
            self.close,
            self.head_method,
            self.date.as_slice(),
            &entries,
            size,
            skip_len,
            buf,
        ) {
            Ok((coding, close)) => {
                self.close = close;
                self.header_cache = headers;
                Some(Ok(coding))
            },
            Err(e) => Some(Err(e)),
        }
    }
}

} // verus!
