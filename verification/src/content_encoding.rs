//! Choosing a content encoding from what a request accepts.

use vstd::prelude::*;
use vstd::slice::slice_subrange;
use http::HeaderMap;
use http::HeaderValue;
use crate::head::{get_all_values, header_values, value_views};
use crate::num::{all_dec_digits, is_dec_digit};
use crate::text::{
    ascii, bytes_eq_ignore_case, eq_ignore_case, find_byte, index_of, str_bytes, trim_range,
    trimmed,
};
use crate::value::{check_visible, has_next_token, is_visible, next_token};

verus! {

/// A supported content encoding.
#[derive(Clone, Copy, Debug, PartialEq, Eq, Structural)]
pub enum ContentEncoding {
    /// The Brotli algorithm.
    Br,
    /// The zlib structure with the deflate algorithm.
    Deflate,
    /// The gzip algorithm.
    Gzip,
    /// The content is left as it is.
    NoOp,
}

impl Default for ContentEncoding {
    fn default() -> (e: Self)
        ensures
            e == ContentEncoding::NoOp,
    {
        ContentEncoding::NoOp
    }
}

/// A quality value in thousandths, from 0 to 1000.
#[derive(Clone, Copy, Debug, PartialEq, Eq, Structural)]
pub struct QValue(pub u16);

/// The thousandths that up to three fractional digits stand for.
pub open spec fn fraction(d: Seq<u8>) -> nat {
    (if d.len() > 0 {
        100 * (d[0] - 48)
    } else {
        0
    }) as nat + (if d.len() > 1 {
        10 * (d[1] - 48)
    } else {
        0
    }) as nat + (if d.len() > 2 {
        d[2] - 48
    } else {
        0
    }) as nat
}

/// The quality value that the text `s` states: `q=` in either case, then
/// `0` or `1`, then optionally a point and up to three digits; the value
/// must not exceed 1.
pub open spec fn qvalue(s: Seq<u8>) -> Option<u16> {
    if s.len() < 3 || !(s[0] == 113 || s[0] == 81) || s[1] != 61 || !(s[2] == 48 || s[2] == 49) {
        None
    } else {
        let lead: nat = if s[2] == 49 {
            1000
        } else {
            0
        };
        if s.len() == 3 {
            Some(lead as u16)
        } else if s[3] != 46 || s.len() > 7 || !all_dec_digits(s.skip(4)) {
            None
        } else if lead + fraction(s.skip(4)) <= 1000 {
            Some((lead + fraction(s.skip(4))) as u16)
        } else {
            None
        }
    }
}

impl QValue {
    /// The quality value 1.
    pub fn one() -> (q: Self)
        ensures
            q.0 == 1000,
    {
        QValue(1000)
    }

    /// Reads a quality value; see [`qvalue`].
    pub fn parse(s: &[u8]) -> (r: Option<Self>)
        ensures
            match r {
                Some(q) => qvalue(s@) == Some(q.0),
                None => qvalue(s@).is_none(),
            },
    {
        if s.len() < 3 {
            return None;
        }
        if !(s[0] == 113 || s[0] == 81) || s[1] != 61 {
            return None;
        }
        let mut value: u16 = if s[2] == 48 {
            0
        } else if s[2] == 49 {
            1000
        } else {
            return None;
        };
        if s.len() == 3 {
            return Some(QValue(value));
        }
        if s[3] != 46 || s.len() > 7 {
            return None;
        }
        let ghost digits = s@.skip(4);
        let mut factor: u16 = 100;
        let mut i: usize = 4;
        let ghost lead = value;
        while i < s.len()
            invariant
                4 <= i <= s@.len() <= 7,
                digits == s@.skip(4),
                factor == (if i == 4 {
                    100int
                } else if i == 5 {
                    10
                } else if i == 6 {
                    1
                } else {
                    0
                }),
                forall|j: int| 0 <= j < i - 4 ==> is_dec_digit(#[trigger] digits[j]),
                value == lead + fraction(digits.take(i - 4)),
                lead <= 1000,
            decreases s.len() - i,
        {
            let b = s[i];
            assert(digits[i - 4] == b);
            if !(48 <= b && b <= 57) {
                return None;
            }
            let ghost before = digits.take(i - 4);
            let ghost after = digits.take(i - 3);
            assert(forall|j: int| 0 <= j < before.len() ==> before[j] == after[j]);
            value = value + factor * (b - 48) as u16;
            factor = factor / 10;
            i += 1;
        }
        assert(digits.take(i - 4) =~= digits);
        if value <= 1000 {
            Some(QValue(value))
        } else {
            None
        }
    }
}

/// The encoding that a name stands for: `gzip`, `deflate` and `br` in any
/// case; every other name, `identity` among them, asks for none.
pub open spec fn encoding_of(s: Seq<u8>) -> ContentEncoding {
    if eq_ignore_case(s, ascii("gzip"@)) {
        ContentEncoding::Gzip
    } else if eq_ignore_case(s, ascii("deflate"@)) {
        ContentEncoding::Deflate
    } else if eq_ignore_case(s, ascii("br"@)) {
        ContentEncoding::Br
    } else {
        ContentEncoding::NoOp
    }
}

/// The item of the comma-separated list `v` that begins at `from`: an
/// encoding, and behind a semicolon its quality value, which is 1 where
/// none is given. An item whose quality value cannot be read is none.
pub open spec fn item_at(v: Seq<u8>, from: int) -> Option<(ContentEncoding, u16)> {
    let end = index_of(v, 44u8, from, v.len() as int);
    let semi = index_of(v, 59u8, from, end);
    let encoding = encoding_of(trimmed(v, from, semi));
    if semi < end {
        match qvalue(trimmed(v, semi + 1, end)) {
            Some(q) => Some((encoding, q)),
            None => None,
        }
    } else {
        Some((encoding, 1000u16))
    }
}

/// The better of the choice so far and an item: the item where its quality
/// value is strictly higher.
pub open spec fn better(best: (ContentEncoding, u16), item: Option<(ContentEncoding, u16)>) -> (
    ContentEncoding,
    u16,
) {
    match item {
        Some(i) => if i.1 > best.1 {
            i
        } else {
            best
        },
        None => best,
    }
}

/// The choice after the items of `v` from `from` on.
pub open spec fn pick_in_value(v: Seq<u8>, from: int, best: (ContentEncoding, u16)) -> (
    ContentEncoding,
    u16,
)
    decreases v.len() - from,
{
    let next = better(best, item_at(v, from));
    if has_next_token(v, from) {
        pick_in_value(v, next_token(v, from), next)
    } else {
        next
    }
}

/// The choice after the values from position `j` on. A value that is not
/// visible text is passed over.
pub open spec fn pick(values: Seq<Seq<u8>>, j: int, best: (ContentEncoding, u16)) -> (
    ContentEncoding,
    u16,
)
    decreases values.len() - j,
{
    if j < 0 || j >= values.len() {
        best
    } else if is_visible(values[j]) {
        pick(values, j + 1, pick_in_value(values[j], 0, best))
    } else {
        pick(values, j + 1, best)
    }
}

/// The encoding preferred by a list of `Accept-Encoding` values: that of
/// the first item with the highest quality value above zero, and none
/// where there is no such item.
pub open spec fn preferred(values: Seq<Seq<u8>>) -> ContentEncoding {
    pick(values, 0, (ContentEncoding::NoOp, 0u16)).0
}

impl ContentEncoding {
    /// The encoding that a name stands for; see [`encoding_of`].
    pub fn parse(s: &[u8]) -> (e: Self)
        ensures
            e == encoding_of(s@),
    {
        proof {
            reveal_strlit("gzip");
            reveal_strlit("deflate");
            reveal_strlit("br");
        }
        if bytes_eq_ignore_case(s, str_bytes("gzip")) {
            ContentEncoding::Gzip
        } else if bytes_eq_ignore_case(s, str_bytes("deflate")) {
            ContentEncoding::Deflate
        } else if bytes_eq_ignore_case(s, str_bytes("br")) {
            ContentEncoding::Br
        } else {
            ContentEncoding::NoOp
        }
    }

    /// Reads the item of `v` that begins at `from`; see [`item_at`].
    fn item(v: &[u8], from: usize) -> (r: (Option<(ContentEncoding, u16)>, usize))
        requires
            from <= v@.len(),
        ensures
            r.0 == item_at(v@, from as int),
            r.1 == index_of(v@, 44u8, from as int, v@.len() as int),
            from <= r.1 <= v@.len(),
    {
        let end = find_byte(v, 44, from, v.len());
        let semi = find_byte(v, 59, from, end);
        let (a, b) = trim_range(v, from, semi);
        let encoding = Self::parse(slice_subrange(v, a, b));
        if semi < end {
            let (c, d) = trim_range(v, semi + 1, end);
            match QValue::parse(slice_subrange(v, c, d)) {
                Some(q) => (Some((encoding, q.0)), end),
                None => (None, end),
            }
        } else {
            (Some((encoding, 1000)), end)
        }
    }

    /// The choice among the values of an `Accept-Encoding` header; see
    /// [`preferred`].
    pub fn choose_from(values: &Vec<Vec<u8>>) -> (e: Self)
        ensures
            e == preferred(value_views(values@)),
    {
        let ghost views = value_views(values@);
        let mut best: (ContentEncoding, u16) = (ContentEncoding::NoOp, 0);
        let mut j: usize = 0;
        while j < values.len()
            invariant
                j <= values@.len(),
                views == value_views(values@),
                pick(views, 0, (ContentEncoding::NoOp, 0u16)) == pick(views, j as int, best),
            decreases values.len() - j,
        {
            let v = values[j].as_slice();
            assert(views[j as int] == v@);
            if check_visible(v) {
                let ghost start = best;
                let mut pos: usize = 0;
                loop
                    invariant
                        pos <= v@.len(),
                        pick_in_value(v@, 0, start) == pick_in_value(v@, pos as int, best),
                    ensures
                        best == pick_in_value(v@, 0, start),
                    decreases v@.len() - pos,
                {
                    let (item, end) = Self::item(v, pos);
                    match item {
                        Some(i) => {
                            if i.1 > best.1 {
                                best = i;
                            }
                        },
                        None => {},
                    }
                    if end >= v.len() {
                        break ;
                    }
                    pos = end + 1;
                }
            }
            j += 1;
        }
        best.0
    }

    /// The encoding that the `Accept-Encoding` headers of a request prefer.
    pub fn from_headers(headers: &HeaderMap<HeaderValue>) -> (e: Self)
        ensures
            e == preferred(header_values(*headers, "accept-encoding"@)),
    {
        let values = get_all_values(headers, "accept-encoding");
        Self::choose_from(&values)
    }
}

} // verus!
