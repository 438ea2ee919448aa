//! Byte-level text helpers: ASCII views of string literals, case folding,
//! optional-whitespace trimming and searching.

use vstd::prelude::*;

verus! {

/// The bytes of an ASCII string.
pub open spec fn ascii(s: Seq<char>) -> Seq<u8> {
    Seq::new(s.len(), |i: int| s[i] as u8)
}

/// The bytes of an ASCII string slice.
pub fn str_bytes(s: &str) -> (b: &[u8])
    requires
        s.is_ascii(),
    ensures
        b@ == ascii(s@),
{
    broadcast use vstd::string::is_ascii_spec_bytes;

    let b = s.as_bytes();
    assert(b@ =~= ascii(s@));
    b
}

/// ASCII lower-case folding of one byte.
pub open spec fn lower(b: u8) -> u8 {
    if 65 <= b && b <= 90 {
        (b + 32) as u8
    } else {
        b
    }
}

/// Folds one byte to ASCII lower case.
pub fn to_lower(b: u8) -> (r: u8)
    ensures
        r == lower(b),
{
    if 65 <= b && b <= 90 {
        b + 32
    } else {
        b
    }
}

/// Equality of two byte strings up to ASCII case.
pub open spec fn eq_ignore_case(a: Seq<u8>, b: Seq<u8>) -> bool {
    a.len() == b.len() && forall|i: int| 0 <= i < a.len() ==> lower(#[trigger] a[i]) == lower(b[i])
}

/// Whether two byte strings are equal up to ASCII case.
pub fn bytes_eq_ignore_case(a: &[u8], b: &[u8]) -> (r: bool)
    ensures
        r == eq_ignore_case(a@, b@),
{
    if a.len() != b.len() {
        return false;
    }
    let mut i: usize = 0;
    while i < a.len()
        invariant
            a@.len() == b@.len(),
            i <= a@.len(),
            forall|j: int| 0 <= j < i ==> lower(#[trigger] a@[j]) == lower(b@[j]),
        decreases a.len() - i,
    {
        if to_lower(a[i]) != to_lower(b[i]) {
            return false;
        }
        i += 1;
    }
    true
}

/// Whether two byte strings are equal.
pub fn bytes_eq(a: &[u8], b: &[u8]) -> (r: bool)
    ensures
        r == (a@ == b@),
{
    if a.len() != b.len() {
        return false;
    }
    let mut i: usize = 0;
    while i < a.len()
        invariant
            a@.len() == b@.len(),
            i <= a@.len(),
            forall|j: int| 0 <= j < i ==> a@[j] == b@[j],
        decreases a.len() - i,
    {
        if a[i] != b[i] {
            return false;
        }
        i += 1;
    }
    assert(a@ =~= b@);
    true
}

/// Space or horizontal tab.
pub open spec fn is_ows(b: u8) -> bool {
    b == 32 || b == 9
}

/// Number of leading optional-whitespace bytes of `s[from..to]`.
pub open spec fn leading_ows(s: Seq<u8>, from: int, to: int) -> int
    decreases to - from,
{
    if from < to && is_ows(s[from]) {
        1 + leading_ows(s, from + 1, to)
    } else {
        0
    }
}

/// Number of trailing optional-whitespace bytes of `s[from..to]`.
pub open spec fn trailing_ows(s: Seq<u8>, from: int, to: int) -> int
    decreases to - from,
{
    if from < to && is_ows(s[to - 1]) {
        1 + trailing_ows(s, from, to - 1)
    } else {
        0
    }
}

/// Start of `s[from..to]` once optional whitespace is trimmed at both ends.
pub open spec fn trim_start(s: Seq<u8>, from: int, to: int) -> int {
    from + leading_ows(s, from, to)
}

/// End of `s[from..to]` once optional whitespace is trimmed at both ends.
pub open spec fn trim_end(s: Seq<u8>, from: int, to: int) -> int {
    let a = trim_start(s, from, to);
    to - trailing_ows(s, a, to)
}

/// `s[from..to]` with optional whitespace trimmed at both ends.
pub open spec fn trimmed(s: Seq<u8>, from: int, to: int) -> Seq<u8> {
    s.subrange(trim_start(s, from, to), trim_end(s, from, to))
}

/// The bounds of `s[from..to]` after trimming optional whitespace.
pub fn trim_range(s: &[u8], from: usize, to: usize) -> (r: (usize, usize))
    requires
        from <= to <= s@.len(),
    ensures
        r.0 == trim_start(s@, from as int, to as int),
        r.1 == trim_end(s@, from as int, to as int),
        from <= r.0 <= r.1 <= to,
{
    let mut a: usize = from;
    while a < to && (s[a] == 32 || s[a] == 9)
        invariant
            from <= a <= to <= s@.len(),
            leading_ows(s@, from as int, to as int) == (a - from) + leading_ows(
                s@,
                a as int,
                to as int,
            ),
        decreases to - a,
    {
        a += 1;
    }
    let mut b: usize = to;
    while a < b && (s[b - 1] == 32 || s[b - 1] == 9)
        invariant
            from <= a <= b <= to <= s@.len(),
            trailing_ows(s@, a as int, to as int) == (to - b) + trailing_ows(
                s@,
                a as int,
                b as int,
            ),
        decreases b - a,
    {
        b -= 1;
    }
    (a, b)
}

/// First position at or after `from` and before `to` that holds `b`, or `to`.
pub open spec fn index_of(s: Seq<u8>, b: u8, from: int, to: int) -> int
    decreases to - from,
{
    if from >= to {
        to
    } else if s[from] == b {
        from
    } else {
        index_of(s, b, from + 1, to)
    }
}

/// Finds the first `b` in `s[from..to]`; see [`index_of`].
pub fn find_byte(s: &[u8], b: u8, from: usize, to: usize) -> (r: usize)
    requires
        from <= to <= s@.len(),
    ensures
        r == index_of(s@, b, from as int, to as int),
        from <= r <= to,
{
    let mut i: usize = from;
    while i < to && s[i] != b
        invariant
            from <= i <= to <= s@.len(),
            index_of(s@, b, from as int, to as int) == index_of(s@, b, i as int, to as int),
        decreases to - i,
    {
        i += 1;
    }
    i
}

/// Copies `s[from..to]` into a new vector.
pub fn copy_range(s: &[u8], from: usize, to: usize) -> (v: Vec<u8>)
    requires
        from <= to <= s@.len(),
    ensures
        v@ == s@.subrange(from as int, to as int),
{
    let mut v: Vec<u8> = Vec::new();
    let mut i: usize = from;
    while i < to
        invariant
            from <= i <= to <= s@.len(),
            v@ == s@.subrange(from as int, i as int),
        decreases to - i,
    {
        v.push(s[i]);
        assert(v@ =~= s@.subrange(from as int, i + 1));
        i += 1;
    }
    v
}

/// Joining is associative.
pub proof fn lemma_concat_assoc(a: Seq<u8>, b: Seq<u8>, c: Seq<u8>)
    ensures
        (a + b) + c == a + (b + c),
{
    assert((a + b) + c =~= a + (b + c));
}

/// What is joined in front is what the front of the whole holds.
pub proof fn lemma_concat_take(a: Seq<u8>, b: Seq<u8>)
    ensures
        (a + b).take(a.len() as int) == a,
{
    assert((a + b).take(a.len() as int) =~= a);
}

} // verus!
