//! Reading header values: visible text, comma-separated tokens, and what
//! `Connection` and `Transfer-Encoding` values ask for.

use vstd::prelude::*;
use vstd::slice::slice_subrange;
use crate::num::{
    all_dec_digits, dec_digits, dec_value, lemma_dec_digits_len, lemma_dec_round_trip,
    parse_decimal,
};
use crate::text::{
    ascii, bytes_eq_ignore_case, eq_ignore_case, find_byte, index_of, str_bytes, trim_range,
    trimmed,
};

verus! {

/// A byte of visible ASCII text, a space or a tab.
pub open spec fn visible_byte(b: u8) -> bool {
    (32 <= b && b < 127) || b == 9
}

/// Every byte is visible ASCII text, a space or a tab: the value can be
/// read as text.
pub open spec fn is_visible(v: Seq<u8>) -> bool {
    forall|i: int| 0 <= i < v.len() ==> visible_byte(#[trigger] v[i])
}

/// Whether the value can be read as text; see [`is_visible`].
pub fn check_visible(v: &[u8]) -> (r: bool)
    ensures
        r == is_visible(v@),
{
    let mut i: usize = 0;
    while i < v.len()
        invariant
            i <= v@.len(),
            forall|j: int| 0 <= j < i ==> visible_byte(#[trigger] v@[j]),
        decreases v.len() - i,
    {
        let b = v[i];
        if !((32 <= b && b < 127) || b == 9) {
            return false;
        }
        i += 1;
    }
    true
}

/// The token of the comma-separated list `v` that begins at `from`, with
/// the whitespace around it removed.
pub open spec fn token_at(v: Seq<u8>, from: int) -> Seq<u8> {
    trimmed(v, from, index_of(v, 44u8, from, v.len() as int))
}

/// Whether a token follows the one that begins at `from`.
pub open spec fn has_next_token(v: Seq<u8>, from: int) -> bool {
    from <= index_of(v, 44u8, from, v.len() as int) < v.len()
}

/// Where the token after the one that begins at `from` begins.
pub open spec fn next_token(v: Seq<u8>, from: int) -> int {
    index_of(v, 44u8, from, v.len() as int) + 1
}

/// Whether the connection is to close once the tokens of a `Connection`
/// value from `from` on are heeded in turn: `close` asks for it,
/// `keep-alive` withdraws it, any other token leaves `close` as it was.
pub open spec fn close_after(v: Seq<u8>, from: int, close: bool) -> bool
    decreases v.len() - from,
{
    let token = token_at(v, from);
    let next = if eq_ignore_case(token, ascii("keep-alive"@)) {
        false
    } else if eq_ignore_case(token, ascii("close"@)) {
        true
    } else {
        close
    };
    if has_next_token(v, from) {
        close_after(v, next_token(v, from), next)
    } else {
        next
    }
}

/// Whether one of the tokens from `from` on is `name`, up to case.
pub open spec fn names_token(v: Seq<u8>, from: int, name: Seq<u8>) -> bool
    decreases v.len() - from,
{
    eq_ignore_case(token_at(v, from), name) || (has_next_token(v, from) && names_token(
        v,
        next_token(v, from),
        name,
    ))
}

/// Whether the last token of the list is `name`, up to case.
pub open spec fn last_token_is(v: Seq<u8>, from: int, name: Seq<u8>) -> bool
    decreases v.len() - from,
{
    if has_next_token(v, from) {
        last_token_is(v, next_token(v, from), name)
    } else {
        eq_ignore_case(token_at(v, from), name)
    }
}

/// The bounds of the token of `v` that begins at `from`, and the position
/// of the comma behind it, or the length of `v` where none follows.
pub fn token_bounds(v: &[u8], from: usize) -> (r: (usize, usize, usize))
    requires
        from <= v@.len(),
    ensures
        v@.subrange(r.0 as int, r.1 as int) == token_at(v@, from as int),
        from <= r.0 <= r.1 <= r.2 <= v@.len(),
        r.2 == index_of(v@, 44u8, from as int, v@.len() as int),
        has_next_token(v@, from as int) == (r.2 < v@.len()),
{
    let end = find_byte(v, 44, from, v.len());
    let (a, b) = trim_range(v, from, end);
    (a, b, end)
}

/// What a `Connection` value asks for; see [`close_after`].
pub fn connection_close(v: &[u8], close: bool) -> (r: bool)
    ensures
        r == close_after(v@, 0, close),
{
    proof {
        reveal_strlit("keep-alive");
        reveal_strlit("close");
    }
    let mut pos: usize = 0;
    let mut cur = close;
    loop
        invariant
            pos <= v@.len(),
            close_after(v@, 0, close) == close_after(v@, pos as int, cur),
            "keep-alive".is_ascii(),
            "close".is_ascii(),
        decreases v@.len() - pos,
    {
        let (a, b, end) = token_bounds(v, pos);
        let token = slice_subrange(v, a, b);
        if bytes_eq_ignore_case(token, str_bytes("keep-alive")) {
            cur = false;
        } else if bytes_eq_ignore_case(token, str_bytes("close")) {
            cur = true;
        }
        if end >= v.len() {
            return cur;
        }
        pos = end + 1;
    }
}

/// Whether one of the tokens of `v` is `name`, up to case.
pub fn has_token(v: &[u8], name: &[u8]) -> (r: bool)
    ensures
        r == names_token(v@, 0, name@),
{
    let mut pos: usize = 0;
    loop
        invariant
            pos <= v@.len(),
            names_token(v@, 0, name@) == names_token(v@, pos as int, name@),
        decreases v@.len() - pos,
    {
        let (a, b, end) = token_bounds(v, pos);
        let token = slice_subrange(v, a, b);
        if bytes_eq_ignore_case(token, name) {
            return true;
        }
        if end >= v.len() {
            return false;
        }
        pos = end + 1;
    }
}

/// Whether the last token of `v` is `name`, up to case.
pub fn ends_with_token(v: &[u8], name: &[u8]) -> (r: bool)
    ensures
        r == last_token_is(v@, 0, name@),
{
    let mut pos: usize = 0;
    loop
        invariant
            pos <= v@.len(),
            last_token_is(v@, 0, name@) == last_token_is(v@, pos as int, name@),
        decreases v@.len() - pos,
    {
        let (a, b, end) = token_bounds(v, pos);
        if end >= v.len() {
            let token = slice_subrange(v, a, b);
            return bytes_eq_ignore_case(token, name);
        }
        pos = end + 1;
    }
}

/// The length that a `Content-Length` value declares: the value must be
/// one or more decimal digits and name a number that fits in 64 bits.
pub open spec fn content_length(v: Seq<u8>) -> Option<u64> {
    if v.len() > 0 && all_dec_digits(v) && dec_value(v) <= u64::MAX {
        Some(dec_value(v) as u64)
    } else {
        None
    }
}

/// Reads the length that a `Content-Length` value declares; see
/// [`content_length`].
pub fn parse_content_length(v: &[u8]) -> (r: Option<u64>)
    ensures
        r == content_length(v@),
{
    parse_decimal(v)
}

/// A length, written as a decimal numeral, is read back as that length:
/// the `Content-Length` that one side declares is the one that the other
/// side expects.
pub proof fn lemma_content_length_round_trip(n: u64)
    ensures
        content_length(dec_digits(n as nat)) == Some(n),
{
    lemma_dec_digits_len(n as nat);
    lemma_dec_round_trip(n as nat);
}

} // verus!
