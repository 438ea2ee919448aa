//! Reading a request head: the request line and the header lines up to the
//! empty line, and what the headers settle about the body and the
//! connection.

use vstd::prelude::*;
use bytes::BytesMut;
use crate::buf::{buf_advance, buf_as_slice, buf_len, contents};
use crate::coding::TransferCoding;
use crate::context::Context;
use crate::error::ProtoError;
use crate::head::Version;
use crate::uri::{states_uri, uri_accepts};
use crate::text::{
    ascii, bytes_eq, bytes_eq_ignore_case, copy_range, eq_ignore_case, find_byte, index_of,
    lower, str_bytes, to_lower, trim_range, trimmed,
};
use crate::value::{
    check_visible, close_after, connection_close, content_length, ends_with_token, has_token,
    is_visible, last_token_is, names_token, parse_content_length,
};

verus! {

/// A character that may stand in a method or in a header name.
pub open spec fn is_tchar(b: u8) -> bool {
    (48 <= b && b <= 57) || (65 <= b && b <= 90) || (97 <= b && b <= 122) || b == 33 || b == 35
        || b == 36 || b == 37 || b == 38 || b == 39 || b == 42 || b == 43 || b == 45 || b == 46
        || b == 94 || b == 95 || b == 96 || b == 124 || b == 126
}

/// One or more token characters.
pub open spec fn is_token(s: Seq<u8>) -> bool {
    s.len() > 0 && forall|i: int| 0 <= i < s.len() ==> is_tchar(#[trigger] s[i])
}

/// A byte that may stand in a request target: neither a control character
/// nor a space.
pub open spec fn is_target_byte(b: u8) -> bool {
    33 <= b && b != 127
}

/// A request target: one or more bytes, none a control character or space.
pub open spec fn is_target(s: Seq<u8>) -> bool {
    s.len() > 0 && forall|i: int| 0 <= i < s.len() ==> is_target_byte(#[trigger] s[i])
}

/// A byte that may stand in a header value: no control character but the
/// tab.
pub open spec fn is_value_byte(b: u8) -> bool {
    (32 <= b && b != 127) || b == 9
}

/// A header value: no control character but the tab.
pub open spec fn is_field_value(s: Seq<u8>) -> bool {
    forall|i: int| 0 <= i < s.len() ==> is_value_byte(#[trigger] s[i])
}

/// The byte string in lower case.
pub open spec fn lower_all(s: Seq<u8>) -> Seq<u8> {
    Seq::new(s.len(), |i: int| lower(s[i]))
}

/// Whether `s[from..to]` is a token.
pub fn check_token(s: &[u8], from: usize, to: usize) -> (r: bool)
    requires
        from <= to <= s@.len(),
    ensures
        r == is_token(s@.subrange(from as int, to as int)),
{
    let ghost t = s@.subrange(from as int, to as int);
    if from == to {
        return false;
    }
    let mut i: usize = from;
    while i < to
        invariant
            from <= i <= to <= s@.len(),
            t == s@.subrange(from as int, to as int),
            forall|j: int| 0 <= j < i - from ==> is_tchar(#[trigger] t[j]),
        decreases to - i,
    {
        let b = s[i];
        assert(t[i - from] == b);
        let ok = (48 <= b && b <= 57) || (65 <= b && b <= 90) || (97 <= b && b <= 122) || b == 33
            || b == 35 || b == 36 || b == 37 || b == 38 || b == 39 || b == 42 || b == 43 || b
            == 45 || b == 46 || b == 94 || b == 95 || b == 96 || b == 124 || b == 126;
        if !ok {
            return false;
        }
        i += 1;
    }
    true
}

/// Whether `s[from..to]` is a request target.
pub fn check_target(s: &[u8], from: usize, to: usize) -> (r: bool)
    requires
        from <= to <= s@.len(),
    ensures
        r == is_target(s@.subrange(from as int, to as int)),
{
    let ghost t = s@.subrange(from as int, to as int);
    if from == to {
        return false;
    }
    let mut i: usize = from;
    while i < to
        invariant
            from <= i <= to <= s@.len(),
            t == s@.subrange(from as int, to as int),
            forall|j: int| 0 <= j < i - from ==> is_target_byte(#[trigger] t[j]),
        decreases to - i,
    {
        let b = s[i];
        assert(t[i - from] == b);
        if !(33 <= b && b != 127) {
            return false;
        }
        i += 1;
    }
    true
}

/// Whether `s[from..to]` is a header value.
pub fn check_field_value(s: &[u8], from: usize, to: usize) -> (r: bool)
    requires
        from <= to <= s@.len(),
    ensures
        r == is_field_value(s@.subrange(from as int, to as int)),
{
    let ghost t = s@.subrange(from as int, to as int);
    let mut i: usize = from;
    while i < to
        invariant
            from <= i <= to <= s@.len(),
            t == s@.subrange(from as int, to as int),
            forall|j: int| 0 <= j < i - from ==> is_value_byte(#[trigger] t[j]),
        decreases to - i,
    {
        let b = s[i];
        assert(t[i - from] == b);
        if !((32 <= b && b != 127) || b == 9) {
            return false;
        }
        i += 1;
    }
    true
}

/// Copies `s[from..to]` in lower case.
pub fn copy_lower(s: &[u8], from: usize, to: usize) -> (v: Vec<u8>)
    requires
        from <= to <= s@.len(),
    ensures
        v@ == lower_all(s@.subrange(from as int, to as int)),
{
    let mut v: Vec<u8> = Vec::new();
    let mut i: usize = from;
    while i < to
        invariant
            from <= i <= to <= s@.len(),
            v@ == lower_all(s@.subrange(from as int, i as int)),
        decreases to - i,
    {
        v.push(to_lower(s[i]));
        assert(v@ =~= lower_all(s@.subrange(from as int, i + 1)));
        i += 1;
    }
    v
}

/// The position of the first line ending at or after `from`, or the length
/// of `s` where none follows.
pub open spec fn find_crlf(s: Seq<u8>, from: int) -> int
    decreases s.len() - from,
{
    if from < 0 || from + 1 >= s.len() {
        s.len() as int
    } else if s[from] == 13 && s[from + 1] == 10 {
        from
    } else {
        find_crlf(s, from + 1)
    }
}

/// Where a line ending is found, it lies within the input, at or after the
/// position from which it was sought.
pub proof fn lemma_find_crlf_bounds(s: Seq<u8>, from: int)
    requires
        0 <= from <= s.len(),
    ensures
        from <= find_crlf(s, from) <= s.len(),
        find_crlf(s, from) < s.len() ==> find_crlf(s, from) + 2 <= s.len() && s[find_crlf(
            s,
            from,
        )] == 13 && s[find_crlf(s, from) + 1] == 10,
    decreases s.len() - from,
{
    if from + 1 < s.len() && !(s[from] == 13 && s[from + 1] == 10) {
        lemma_find_crlf_bounds(s, from + 1);
    }
}

/// Finds the first line ending at or after `from`.
pub fn line_end(s: &[u8], from: usize) -> (r: usize)
    requires
        from <= s@.len(),
    ensures
        r == find_crlf(s@, from as int),
        from <= r <= s@.len(),
        r < s@.len() ==> r + 2 <= s@.len(),
{
    proof {
        lemma_find_crlf_bounds(s@, from as int);
    }
    let mut i: usize = from;
    while i < s.len() && i + 1 < s.len()
        invariant
            from <= i <= s@.len(),
            find_crlf(s@, from as int) == find_crlf(s@, i as int),
        decreases s.len() - i,
    {
        if s[i] == 13 && s[i + 1] == 10 {
            return i;
        }
        i += 1;
    }
    s.len()
}

/// The parts of a request line.
pub ghost struct RequestLine {
    pub method: Seq<u8>,
    pub target: Seq<u8>,
    pub version: Version,
}

/// The request line `s[from..to]` with its spaces at `sp1` and `sp2`,
/// where `is_uri` tells whether the target states a URI. The method is a
/// token; the target holds no control character or space and states a
/// URI; anything else is a bad request. A version other than `HTTP/1.1`
/// and `HTTP/1.0` is refused as such.
pub open spec fn request_line_given(
    s: Seq<u8>,
    from: int,
    sp1: int,
    sp2: int,
    to: int,
    is_uri: bool,
) -> Result<RequestLine, ProtoError> {
    if !is_token(s.subrange(from, sp1)) || !is_target(s.subrange(sp1 + 1, sp2)) || !is_uri {
        Err(ProtoError::BadRequest)
    } else if s.subrange(sp2 + 1, to) == ascii("HTTP/1.1"@) {
        Ok(
            RequestLine {
                method: s.subrange(from, sp1),
                target: s.subrange(sp1 + 1, sp2),
                version: Version::Http11,
            },
        )
    } else if s.subrange(sp2 + 1, to) == ascii("HTTP/1.0"@) {
        Ok(
            RequestLine {
                method: s.subrange(from, sp1),
                target: s.subrange(sp1 + 1, sp2),
                version: Version::Http10,
            },
        )
    } else {
        Err(ProtoError::Version)
    }
}

/// The request line `s[from..to]`: a method, a target and the version,
/// with one space between them; a line without two spaces is a bad
/// request. What stands between the spaces is judged as
/// [`request_line_given`] says.
pub open spec fn request_line(s: Seq<u8>, from: int, to: int) -> Result<RequestLine, ProtoError> {
    let sp1 = index_of(s, 32u8, from, to);
    let sp2 = index_of(s, 32u8, sp1 + 1, to);
    if sp1 >= to || sp2 >= to {
        Err(ProtoError::BadRequest)
    } else {
        request_line_given(s, from, sp1, sp2, to, states_uri(s.subrange(sp1 + 1, sp2)))
    }
}

/// The longest name that a header can have.
pub const MAX_HEADER_NAME_LEN: usize = 65535;

/// The header line `s[from..to]`: a name, a colon and a value. The name is
/// a token of no more than [`MAX_HEADER_NAME_LEN`] bytes and is read in
/// lower case; the value is what stands behind the colon without the
/// whitespace around it, and holds no control character but the tab.
/// Anything else is a bad request.
pub open spec fn header_line(s: Seq<u8>, from: int, to: int) -> Result<
    (Seq<u8>, Seq<u8>),
    ProtoError,
> {
    let colon = index_of(s, 58u8, from, to);
    if colon >= to || colon - from > MAX_HEADER_NAME_LEN || !is_token(s.subrange(from, colon))
        || !is_field_value(trimmed(s, colon + 1, to)) {
        Err(ProtoError::BadRequest)
    } else {
        Ok((lower_all(s.subrange(from, colon)), trimmed(s, colon + 1, to)))
    }
}

/// One header of a request: the name in lower case, and the value.
pub struct HeaderField {
    pub name: Vec<u8>,
    pub value: Vec<u8>,
}

impl View for HeaderField {
    type V = (Seq<u8>, Seq<u8>);

    open spec fn view(&self) -> (Seq<u8>, Seq<u8>) {
        (self.name@, self.value@)
    }
}

/// The views of a list of headers.
pub open spec fn field_views(fields: Seq<HeaderField>) -> Seq<(Seq<u8>, Seq<u8>)> {
    Seq::new(fields.len(), |i: int| fields[i]@)
}

/// A request head as byte sequences.
pub ghost struct HeadText {
    pub method: Seq<u8>,
    pub target: Seq<u8>,
    pub version: Version,
    pub headers: Seq<(Seq<u8>, Seq<u8>)>,
}

/// A request head.
pub struct RequestHead {
    pub method: Vec<u8>,
    pub target: Vec<u8>,
    pub version: Version,
    pub headers: Vec<HeaderField>,
}

impl View for RequestHead {
    type V = HeadText;

    open spec fn view(&self) -> HeadText {
        HeadText {
            method: self.method@,
            target: self.target@,
            version: self.version,
            headers: field_views(self.headers@),
        }
    }
}

/// What the bytes at the front of a connection hold.
pub ghost enum Parsed {
    /// A request head of `len` bytes, the empty line included.
    Complete { head: HeadText, len: int },
    /// The beginning of a request head.
    Partial,
    /// No request head.
    Invalid(ProtoError),
}

/// Reads header lines from `pos` on, up to the empty line. `limit` bounds
/// the number of headers; one more is a bad request.
pub open spec fn parse_lines(
    s: Seq<u8>,
    pos: int,
    limit: nat,
    line: RequestLine,
    acc: Seq<(Seq<u8>, Seq<u8>)>,
) -> Parsed
    decreases s.len() - pos,
{
    let end = find_crlf(s, pos);
    if end < pos || end + 2 > s.len() {
        Parsed::Partial
    } else if end == pos {
        Parsed::Complete {
            head: HeadText {
                method: line.method,
                target: line.target,
                version: line.version,
                headers: acc,
            },
            len: pos + 2,
        }
    } else if acc.len() >= limit {
        Parsed::Invalid(ProtoError::BadRequest)
    } else {
        match header_line(s, pos, end) {
            Ok(h) => parse_lines(s, end + 2, limit, line, acc.push(h)),
            Err(e) => Parsed::Invalid(e),
        }
    }
}

/// Reads a request head from the front of `s`: the request line, then
/// header lines up to the empty line, each line ended by CR LF. Lines are
/// judged as they are complete; input that ends before the empty line is
/// the beginning of a head.
pub open spec fn parse_request(s: Seq<u8>, limit: nat) -> Parsed {
    let end = find_crlf(s, 0);
    if end >= s.len() {
        Parsed::Partial
    } else {
        match request_line(s, 0, end) {
            Ok(line) => parse_lines(s, end + 2, limit, line, Seq::empty()),
            Err(e) => Parsed::Invalid(e),
        }
    }
}

/// What reading a request head from a slice gives.
pub enum ParsedHead {
    Complete { head: RequestHead, len: usize },
    Partial,
    Invalid(ProtoError),
}

impl View for ParsedHead {
    type V = Parsed;

    open spec fn view(&self) -> Parsed {
        match self {
            ParsedHead::Complete { head, len } => Parsed::Complete {
                head: head@,
                len: *len as int,
            },
            ParsedHead::Partial => Parsed::Partial,
            ParsedHead::Invalid(e) => Parsed::Invalid(*e),
        }
    }
}

/// Judges the request line `s[from..to]` with its spaces at `sp1` and
/// `sp2`, where `is_uri` tells whether the target states a URI; see
/// [`request_line_given`].
pub fn judge_request_line(
    s: &[u8],
    from: usize,
    sp1: usize,
    sp2: usize,
    to: usize,
    is_uri: bool,
) -> (r: Result<(Vec<u8>, Vec<u8>, Version), ProtoError>)
    requires
        from <= sp1 < sp2 < to <= s@.len(),
    ensures
        match r {
            Ok((method, target, version)) => request_line_given(
                s@,
                from as int,
                sp1 as int,
                sp2 as int,
                to as int,
                is_uri,
            ) == Ok::<RequestLine, ProtoError>(
                RequestLine { method: method@, target: target@, version },
            ),
            Err(e) => request_line_given(
                s@,
                from as int,
                sp1 as int,
                sp2 as int,
                to as int,
                is_uri,
            ) == Err::<RequestLine, ProtoError>(e),
        },
{
    proof {
        reveal_strlit("HTTP/1.1");
        reveal_strlit("HTTP/1.0");
    }
    if !check_token(s, from, sp1) || !check_target(s, sp1 + 1, sp2) || !is_uri {
        return Err(ProtoError::BadRequest);
    }
    let text = vstd::slice::slice_subrange(s, sp2 + 1, to);
    let version = if bytes_eq(text, str_bytes("HTTP/1.1")) {
        Version::Http11
    } else if bytes_eq(text, str_bytes("HTTP/1.0")) {
        Version::Http10
    } else {
        return Err(ProtoError::Version);
    };
    Ok((copy_range(s, from, sp1), copy_range(s, sp1 + 1, sp2), version))
}

/// Reads the request line `s[from..to]`; see [`request_line`].
pub fn read_request_line(s: &[u8], from: usize, to: usize) -> (r: Result<
    (Vec<u8>, Vec<u8>, Version),
    ProtoError,
>)
    requires
        from <= to <= s@.len(),
    ensures
        match r {
            Ok((method, target, version)) => request_line(s@, from as int, to as int) == Ok::<
                RequestLine,
                ProtoError,
            >(RequestLine { method: method@, target: target@, version }),
            Err(e) => request_line(s@, from as int, to as int) == Err::<RequestLine, ProtoError>(
                e,
            ),
        },
{
    let sp1 = find_byte(s, 32, from, to);
    if sp1 >= to {
        return Err(ProtoError::BadRequest);
    }
    let sp2 = find_byte(s, 32, sp1 + 1, to);
    if sp2 >= to {
        return Err(ProtoError::BadRequest);
    }
    let is_uri = uri_accepts(vstd::slice::slice_subrange(s, sp1 + 1, sp2));
    judge_request_line(s, from, sp1, sp2, to, is_uri)
}

/// Reads the header line `s[from..to]`; see [`header_line`].
pub fn read_header_line(s: &[u8], from: usize, to: usize) -> (r: Result<HeaderField, ProtoError>)
    requires
        from <= to <= s@.len(),
    ensures
        match r {
            Ok(field) => header_line(s@, from as int, to as int) == Ok::<
                (Seq<u8>, Seq<u8>),
                ProtoError,
            >(field@),
            Err(e) => header_line(s@, from as int, to as int) == Err::<
                (Seq<u8>, Seq<u8>),
                ProtoError,
            >(e),
        },
{
    let colon = find_byte(s, 58, from, to);
    if colon >= to || colon - from > MAX_HEADER_NAME_LEN {
        return Err(ProtoError::BadRequest);
    }
    if !check_token(s, from, colon) {
        return Err(ProtoError::BadRequest);
    }
    let (a, b) = trim_range(s, colon + 1, to);
    if !check_field_value(s, a, b) {
        return Err(ProtoError::BadRequest);
    }
    Ok(HeaderField { name: copy_lower(s, from, colon), value: copy_range(s, a, b) })
}

/// Reads a request head from the front of `s`; see [`parse_request`].
pub fn parse_head(s: &[u8], limit: usize) -> (r: ParsedHead)
    ensures
        r@ == parse_request(s@, limit as nat),
        r matches ParsedHead::Complete { head, len } ==> head.headers@.len() <= limit && 4 <= len
            <= s@.len(),
{
    let end = line_end(s, 0);
    if end >= s.len() {
        return ParsedHead::Partial;
    }
    let (method, target, version) = match read_request_line(s, 0, end) {
        Ok(line) => line,
        Err(e) => {
            return ParsedHead::Invalid(e);
        },
    };
    let ghost line = RequestLine { method: method@, target: target@, version };
    let mut headers: Vec<HeaderField> = Vec::new();
    let mut pos: usize = end + 2;
    assert(field_views(headers@) =~= Seq::<(Seq<u8>, Seq<u8>)>::empty());
    loop
        invariant
            2 <= pos <= s@.len(),
            headers@.len() <= limit,
            parse_request(s@, limit as nat) == parse_lines(
                s@,
                pos as int,
                limit as nat,
                line,
                field_views(headers@),
            ),
            line == (RequestLine { method: method@, target: target@, version }),
        decreases s@.len() - pos,
    {
        let end = line_end(s, pos);
        if end >= s.len() {
            return ParsedHead::Partial;
        }
        if end == pos {
            return ParsedHead::Complete {
                head: RequestHead { method, target, version, headers },
                len: pos + 2,
            };
        }
        if headers.len() >= limit {
            return ParsedHead::Invalid(ProtoError::BadRequest);
        }
        match read_header_line(s, pos, end) {
            Ok(field) => {
                let ghost before = field_views(headers@);
                headers.push(field);
                assert(field_views(headers@) =~= before.push(field@));
            },
            Err(e) => {
                return ParsedHead::Invalid(e);
            },
        }
        pos = end + 2;
    }
}


/// The framing after a header asks for the framing `new`: the first
/// framing header settles the framing, a further one contradicts it, but
/// for an upgrade that is asked for again.
pub open spec fn framing_set(cur: TransferCoding, new: TransferCoding) -> Result<
    TransferCoding,
    ProtoError,
> {
    match cur {
        TransferCoding::Upgrade => if new == TransferCoding::Upgrade {
            Ok(cur)
        } else {
            Err(ProtoError::Framing)
        },
        TransferCoding::Chunked(_) => Err(ProtoError::Framing),
        TransferCoding::Length(_) => Err(ProtoError::Framing),
        _ => Ok(new),
    }
}

impl TransferCoding {
    /// Takes the framing `other` where none is settled yet; see
    /// [`framing_set`]. On failure the framing stays as it is.
    pub fn try_set(&mut self, other: Self) -> (r: Result<(), ProtoError>)
        ensures
            match r {
                Ok(()) => framing_set(*old(self), other) == Ok::<TransferCoding, ProtoError>(
                    *final(self),
                ),
                Err(e) => framing_set(*old(self), other) == Err::<TransferCoding, ProtoError>(e)
                    && *final(self) == *old(self),
            },
    {
        match *self {
            TransferCoding::Upgrade => {
                if let TransferCoding::Upgrade = other {
                    Ok(())
                } else {
                    Err(ProtoError::Framing)
                }
            },
            TransferCoding::Chunked(_) => Err(ProtoError::Framing),
            TransferCoding::Length(_) => Err(ProtoError::Framing),
            _ => {
                *self = other;
                Ok(())
            },
        }
    }
}

/// What the headers of a request have settled so far.
#[derive(Clone, Copy, Debug, PartialEq, Eq, Structural)]
pub struct RequestState {
    /// The connection is to close after the response.
    pub close: bool,
    /// The request expects `100 Continue`.
    pub expect: bool,
    /// A `Host` header was met.
    pub has_host: bool,
    /// The framing of the request body.
    pub coding: TransferCoding,
}

/// What a request header of the given name and value settles.
///
/// `transfer-encoding` must be visible text whose last coding is
/// `chunked`, and settles chunked framing; `content-length` must be a
/// decimal number and settles its framing; both, or one of them twice,
/// contradict each other. `connection` marks the connection to close where
/// it names `close`; under HTTP/1.0 it also withdraws the mark where it
/// names `keep-alive`. `expect` must be `100-continue`. `upgrade` settles
/// upgrade framing. `transfer-encoding` and `upgrade` are not accepted
/// under HTTP/1.0.
pub open spec fn heed_request(st: RequestState, version: Version, name: Seq<u8>, value: Seq<u8>) -> Result<
    RequestState,
    ProtoError,
> {
    if name == ascii("transfer-encoding"@) {
        if version != Version::Http11 || !is_visible(value) {
            Err(ProtoError::Header)
        } else if !last_token_is(value, 0, ascii("chunked"@)) {
            Err(ProtoError::Framing)
        } else {
            match framing_set(st.coding, TransferCoding::chunked_start()) {
                Ok(coding) => Ok(RequestState { coding, ..st }),
                Err(e) => Err(e),
            }
        }
    } else if name == ascii("content-length"@) {
        match content_length(value) {
            None => Err(ProtoError::Header),
            Some(n) => match framing_set(st.coding, TransferCoding::Length(n)) {
                Ok(coding) => Ok(RequestState { coding, ..st }),
                Err(e) => Err(e),
            },
        }
    } else if name == ascii("connection"@) {
        if !is_visible(value) {
            Err(ProtoError::Header)
        } else if version == Version::Http10 {
            Ok(RequestState { close: close_after(value, 0, st.close), ..st })
        } else {
            Ok(RequestState { close: st.close || names_token(value, 0, ascii("close"@)), ..st })
        }
    } else if name == ascii("expect"@) {
        if eq_ignore_case(value, ascii("100-continue"@)) {
            Ok(RequestState { expect: true, ..st })
        } else {
            Err(ProtoError::Header)
        }
    } else if name == ascii("upgrade"@) {
        if version != Version::Http11 {
            Err(ProtoError::Header)
        } else {
            match framing_set(st.coding, TransferCoding::Upgrade) {
                Ok(coding) => Ok(RequestState { coding, ..st }),
                Err(e) => Err(e),
            }
        }
    } else if name == ascii("host"@) {
        Ok(RequestState { has_host: true, ..st })
    } else {
        Ok(st)
    }
}

/// Computes what a request header settles; see [`heed_request`].
pub fn heed_request_header(st: RequestState, version: Version, name: &[u8], value: &[u8]) -> (r:
    Result<RequestState, ProtoError>)
    ensures
        r == heed_request(st, version, name@, value@),
{
    proof {
        reveal_strlit("transfer-encoding");
        reveal_strlit("content-length");
        reveal_strlit("connection");
        reveal_strlit("expect");
        reveal_strlit("upgrade");
        reveal_strlit("host");
        reveal_strlit("chunked");
        reveal_strlit("close");
        reveal_strlit("100-continue");
    }
    let mut st = st;
    if bytes_eq(name, str_bytes("transfer-encoding")) {
        if version != Version::Http11 || !check_visible(value) {
            return Err(ProtoError::Header);
        }
        if !ends_with_token(value, str_bytes("chunked")) {
            return Err(ProtoError::Framing);
        }
        match st.coding.try_set(TransferCoding::decode_chunked()) {
            Ok(()) => {},
            Err(e) => {
                return Err(e);
            },
        }
    } else if bytes_eq(name, str_bytes("content-length")) {
        match parse_content_length(value) {
            None => {
                return Err(ProtoError::Header);
            },
            Some(n) => match st.coding.try_set(TransferCoding::length(n)) {
                Ok(()) => {},
                Err(e) => {
                    return Err(e);
                },
            },
        }
    } else if bytes_eq(name, str_bytes("connection")) {
        if !check_visible(value) {
            return Err(ProtoError::Header);
        }
        if version == Version::Http10 {
            st.close = connection_close(value, st.close);
        } else if has_token(value, str_bytes("close")) {
            st.close = true;
        }
    } else if bytes_eq(name, str_bytes("expect")) {
        if !bytes_eq_ignore_case(value, str_bytes("100-continue")) {
            return Err(ProtoError::Header);
        }
        st.expect = true;
    } else if bytes_eq(name, str_bytes("upgrade")) {
        if version != Version::Http11 {
            return Err(ProtoError::Header);
        }
        match st.coding.try_set(TransferCoding::upgrade()) {
            Ok(()) => {},
            Err(e) => {
                return Err(e);
            },
        }
    } else if bytes_eq(name, str_bytes("host")) {
        st.has_host = true;
    }
    Ok(st)
}

/// What the headers from position `i` on settle, in turn.
pub open spec fn heed_all(
    st: RequestState,
    version: Version,
    headers: Seq<(Seq<u8>, Seq<u8>)>,
    i: int,
) -> Result<RequestState, ProtoError>
    decreases headers.len() - i,
{
    if i < 0 || i >= headers.len() {
        Ok(st)
    } else {
        match heed_request(st, version, headers[i].0, headers[i].1) {
            Ok(next) => heed_all(next, version, headers, i + 1),
            Err(e) => Err(e),
        }
    }
}

/// What a request asks of the connection.
pub ghost struct Settlement {
    pub close: bool,
    pub expect_continue: bool,
    pub head_method: bool,
    pub connect_method: bool,
    pub coding: TransferCoding,
}

/// Where settling a request begins: `CONNECT` asks for upgrade framing,
/// every other method for no body; HTTP/1.0 closes the connection unless a
/// header says otherwise, and a connection marked to close stays so.
pub open spec fn settle_start(close: bool, head: HeadText) -> RequestState {
    RequestState {
        close: close || head.version == Version::Http10,
        expect: false,
        has_host: false,
        coding: if head.method == ascii("CONNECT"@) {
            TransferCoding::Upgrade
        } else {
            TransferCoding::Eof
        },
    }
}

/// What a request head asks of the connection. The headers settle it in
/// turn, as [`heed_request`] says. A request under HTTP/1.1 without `Host`
/// header is a bad request. The body is chunked where `transfer-encoding`
/// says so, else of the length that `content-length` declares, else there
/// is none.
pub open spec fn settle(close: bool, head: HeadText) -> Result<Settlement, ProtoError> {
    match heed_all(settle_start(close, head), head.version, head.headers, 0) {
        Err(e) => Err(e),
        Ok(st) => if head.version == Version::Http11 && !st.has_host {
            Err(ProtoError::BadRequest)
        } else {
            Ok(
                Settlement {
                    close: st.close,
                    expect_continue: st.expect,
                    head_method: head.method == ascii("HEAD"@),
                    connect_method: head.method == ascii("CONNECT"@),
                    coding: st.coding,
                },
            )
        },
    }
}

/// What `decode_head` finds at the front of the read buffer.
pub ghost enum Decoded {
    /// A request head of `len` bytes, and what it asks for.
    Ready { head: HeadText, len: int, asks: Settlement },
    /// The beginning of a request head.
    NeedMore,
    /// No request head that can be served.
    Failed(ProtoError),
}

/// What `decode_head` finds in the input `s` on a connection that is
/// marked to close or not, with at most `header_limit` headers and a
/// read buffer limit of `read_limit` bytes.
///
/// A head that is longer than the read buffer limit is too large, and so
/// is the beginning of a head that has reached the limit.
pub open spec fn decode_spec(close: bool, s: Seq<u8>, header_limit: nat, read_limit: nat) -> Decoded {
    match parse_request(s, header_limit) {
        Parsed::Complete { head, len } => if len > read_limit {
            Decoded::Failed(ProtoError::HeaderTooLarge)
        } else {
            match settle(close, head) {
                Ok(asks) => Decoded::Ready { head, len, asks },
                Err(e) => Decoded::Failed(e),
            }
        },
        Parsed::Partial => if s.len() >= read_limit {
            Decoded::Failed(ProtoError::HeaderTooLarge)
        } else {
            Decoded::NeedMore
        },
        Parsed::Invalid(e) => Decoded::Failed(e),
    }
}

/// Computes what a request head asks of the connection; see [`settle`].
pub fn settle_head(close: bool, head: &RequestHead) -> (r: Result<(RequestState, bool, bool), ProtoError>)
    ensures
        match r {
            Ok((st, head_method, connect_method)) => settle(close, head@) == Ok::<
                Settlement,
                ProtoError,
            >(
                Settlement {
                    close: st.close,
                    expect_continue: st.expect,
                    head_method,
                    connect_method,
                    coding: st.coding,
                },
            ),
            Err(e) => settle(close, head@) == Err::<Settlement, ProtoError>(e),
        },
{
    proof {
        reveal_strlit("CONNECT");
        reveal_strlit("HEAD");
    }
    let connect_method = bytes_eq(head.method.as_slice(), str_bytes("CONNECT"));
    let head_method = bytes_eq(head.method.as_slice(), str_bytes("HEAD"));
    let version = head.version;
    let mut st = RequestState {
        close: close || version == Version::Http10,
        expect: false,
        has_host: false,
        coding: if connect_method {
            TransferCoding::upgrade()
        } else {
            TransferCoding::eof()
        },
    };
    let ghost start = st;
    let ghost views = field_views(head.headers@);
    let mut i: usize = 0;
    while i < head.headers.len()
        invariant
            i <= head.headers@.len(),
            views == field_views(head.headers@),
            version == head.version,
            start == settle_start(close, head@),
            heed_all(start, version, views, 0) == heed_all(st, version, views, i as int),
        decreases head.headers.len() - i,
    {
        let field = &head.headers[i];
        assert(views[i as int] == field@);
        match heed_request_header(st, version, field.name.as_slice(), field.value.as_slice()) {
            Ok(next) => {
                st = next;
            },
            Err(e) => {
                return Err(e);
            },
        }
        i += 1;
    }
    if version == Version::Http11 && !st.has_host {
        return Err(ProtoError::BadRequest);
    }
    Ok((st, head_method, connect_method))
}

impl<const HEADER_LIMIT: usize> Context<HEADER_LIMIT> {
    /// Takes the next request head from the front of `buf`.
    ///
    /// On a complete head the bytes of the head, up to and including the
    /// empty line, leave `buf`; the head is returned with the framing of
    /// the request body, and the context holds what the request asks for.
    /// `Ok(None)` tells that more input is needed. A head of more than
    /// `HEADER_LIMIT` headers or with a syntax error, one that exceeds
    /// `READ_BUF_LIMIT` and one whose headers contradict each other is
    /// refused; then, as when more input is needed, `buf` and the context
    /// stay as they are.
    pub fn decode_head<const READ_BUF_LIMIT: usize>(&mut self, buf: &mut BytesMut) -> (r: Result<
        Option<(RequestHead, TransferCoding)>,
        ProtoError,
    >)
        ensures
            match decode_spec(
                old(self).close,
                contents(*old(buf)),
                HEADER_LIMIT as nat,
                READ_BUF_LIMIT as nat,
            ) {
                Decoded::Ready { head, len, asks } => {
                    &&& r matches Ok(Some((request, coding)))
                    &&& request@ == head
                    &&& coding == asks.coding
                    &&& request.headers@.len() <= HEADER_LIMIT
                    &&& 0 < len <= READ_BUF_LIMIT
                    &&& len <= contents(*old(buf)).len()
                    &&& contents(*final(buf)) == contents(*old(buf)).skip(len)
                    &&& final(self).flags() == (
                        asks.close,
                        asks.expect_continue,
                        asks.head_method,
                        asks.connect_method,
                    )
                },
                Decoded::NeedMore => {
                    &&& r matches Ok(None)
                    &&& contents(*final(buf)) == contents(*old(buf))
                    &&& final(self).flags() == old(self).flags()
                },
                Decoded::Failed(e) => {
                    &&& r matches Err(x)
                    &&& x == e
                    &&& contents(*final(buf)) == contents(*old(buf))
                    &&& final(self).flags() == old(self).flags()
                },
            },
            final(self).date == old(self).date,
            final(self).header_cache == old(self).header_cache,
    {
        let parsed = parse_head(buf_as_slice(buf), HEADER_LIMIT);
        match parsed {
            ParsedHead::Complete { head, len } => {
                if len > READ_BUF_LIMIT {
                    return Err(ProtoError::HeaderTooLarge);
                }
                match settle_head(self.close, &head) {
                    Ok((st, head_method, connect_method)) => {
                        buf_advance(buf, len);
                        self.close = st.close;
                        self.expect_continue = st.expect;
                        self.head_method = head_method;
                        self.connect_method = connect_method;
                        Ok(Some((head, st.coding)))
                    },
                    Err(e) => Err(e),
                }
            },
            ParsedHead::Partial => {
                if buf_len(buf) >= READ_BUF_LIMIT {
                    Err(ProtoError::HeaderTooLarge)
                } else {
                    Ok(None)
                }
            },
            ParsedHead::Invalid(e) => Err(e),
        }
    }
}

} // verus!
