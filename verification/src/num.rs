//! Decimal and hexadecimal numerals as byte strings.

use vstd::prelude::*;

verus! {

/// The ASCII digit for a value below ten.
pub open spec fn dec_char(d: nat) -> u8 {
    (48 + d) as u8
}

/// The decimal numeral of `n`, without leading zeros.
pub open spec fn dec_digits(n: nat) -> Seq<u8>
    decreases n,
{
    if n < 10 {
        seq![dec_char(n)]
    } else {
        dec_digits(n / 10).push(dec_char(n % 10))
    }
}

/// An ASCII decimal digit.
pub open spec fn is_dec_digit(b: u8) -> bool {
    48 <= b && b <= 57
}

/// Every byte is a decimal digit.
pub open spec fn all_dec_digits(s: Seq<u8>) -> bool {
    forall|i: int| 0 <= i < s.len() ==> is_dec_digit(#[trigger] s[i])
}

/// The number written by a string of decimal digits.
pub open spec fn dec_value(s: Seq<u8>) -> nat
    decreases s.len(),
{
    if s.len() == 0 {
        0
    } else {
        dec_value(s.drop_last()) * 10 + (s.last() - 48) as nat
    }
}

/// The upper-case ASCII hexadecimal digit for a value below sixteen.
pub open spec fn hex_char(d: nat) -> u8 {
    if d < 10 {
        (48 + d) as u8
    } else {
        (55 + d) as u8
    }
}

/// The upper-case hexadecimal numeral of `n`, without leading zeros.
pub open spec fn hex_digits(n: nat) -> Seq<u8>
    decreases n,
{
    if n < 16 {
        seq![hex_char(n)]
    } else {
        hex_digits(n / 16).push(hex_char(n % 16))
    }
}

/// The value of a hexadecimal digit in either case, if `b` is one.
pub open spec fn hex_val(b: u8) -> Option<nat> {
    if 48 <= b && b <= 57 {
        Some((b - 48) as nat)
    } else if 65 <= b && b <= 70 {
        Some((b - 55) as nat)
    } else if 97 <= b && b <= 102 {
        Some((b - 87) as nat)
    } else {
        None
    }
}

/// The value of a hexadecimal digit in either case; see [`hex_val`].
pub fn hex_value(b: u8) -> (r: Option<u8>)
    ensures
        match r {
            Some(d) => hex_val(b) == Some(d as nat) && d < 16,
            None => hex_val(b).is_none(),
        },
{
    if 48 <= b && b <= 57 {
        Some(b - 48)
    } else if 65 <= b && b <= 70 {
        Some(b - 55)
    } else if 97 <= b && b <= 102 {
        Some(b - 87)
    } else {
        None
    }
}

/// A hexadecimal digit stands for the value it was made from, and is no
/// line ending.
pub proof fn lemma_hex_char_val(d: nat)
    requires
        d < 16,
    ensures
        hex_val(hex_char(d)) == Some(d),
        hex_char(d) != 13,
        hex_char(d) != 10,
{
}

/// A decimal numeral has at least one digit, and digits only.
pub proof fn lemma_dec_digits_len(n: nat)
    ensures
        1 <= dec_digits(n).len() <= n + 1,
        all_dec_digits(dec_digits(n)),
    decreases n,
{
    if n >= 10 {
        lemma_dec_digits_len(n / 10);
        let s = dec_digits(n / 10);
        assert forall|i: int| 0 <= i < dec_digits(n).len() implies is_dec_digit(
            #[trigger] dec_digits(n)[i],
        ) by {
            if i < s.len() {
                assert(dec_digits(n)[i] == s[i]);
            }
        }
    }
}

/// A hexadecimal numeral has at least one digit, and at most sixteen for a
/// number that fits in a machine word.
pub proof fn lemma_hex_digits_len(n: nat)
    ensures
        1 <= hex_digits(n).len() <= n + 1,
        n <= usize::MAX ==> hex_digits(n).len() <= 16,
    decreases n,
{
    if n >= 16 {
        lemma_hex_digits_len(n / 16);
        lemma_hex_len_bound(n);
    }
}

/// The number of hexadecimal digits of `n`.
pub open spec fn hex_width(n: nat) -> nat
    decreases n,
{
    if n < 16 {
        1
    } else {
        1 + hex_width(n / 16)
    }
}

proof fn lemma_hex_width(n: nat)
    ensures
        hex_digits(n).len() == hex_width(n),
    decreases n,
{
    if n >= 16 {
        lemma_hex_width(n / 16);
    }
}

proof fn lemma_hex_len_bound(n: nat)
    ensures
        n <= usize::MAX ==> hex_digits(n).len() <= 16,
{
    lemma_hex_width(n);
    if n <= usize::MAX {
        assert(n < 0x1_0000_0000_0000_0000);
        reveal_with_fuel(hex_width, 17);
        assert(hex_width(n) <= 16);
    }
}

/// The decimal numeral, read back, is the number.
pub proof fn lemma_dec_round_trip(n: nat)
    ensures
        dec_value(dec_digits(n)) == n,
    decreases n,
{
    if n < 10 {
        let s = dec_digits(n);
        assert(s.drop_last() =~= Seq::<u8>::empty());
        assert(dec_value(s.drop_last()) == 0);
    } else {
        lemma_dec_round_trip(n / 10);
        let s = dec_digits(n);
        assert(s.drop_last() =~= dec_digits(n / 10));
    }
}

/// Appends the upper-case hexadecimal numeral of `n`.
pub fn push_hex(v: &mut Vec<u8>, n: usize)
    ensures
        final(v)@ == old(v)@ + hex_digits(n as nat),
    decreases n,
{
    if n >= 16 {
        push_hex(v, n / 16);
    }
    let d = (n % 16) as u8;
    let c: u8 = if d < 10 {
        48 + d
    } else {
        55 + d
    };
    v.push(c);
    assert(final(v)@ =~= old(v)@ + hex_digits(n as nat));
}

/// `itoa::Buffer::format`: the decimal numeral of `n`, without sign or
/// leading zeros.
#[verifier::external_body]
pub(crate) fn decimal(n: u64) -> (v: Vec<u8>)
    ensures
        v@ == dec_digits(n as nat),
{
    itoa::Buffer::new().format(n).as_bytes().to_vec()
}

/// Reads a string of decimal digits as a number. `None` when the string is
/// empty, holds another byte, or names a number above `u64::MAX`.
pub fn parse_decimal(s: &[u8]) -> (r: Option<u64>)
    ensures
        r.is_some() <==> (s@.len() > 0 && all_dec_digits(s@) && dec_value(s@) <= u64::MAX),
        r.is_some() ==> r.unwrap() == dec_value(s@),
{
    if s.len() == 0 {
        return None;
    }
    let mut acc: u64 = 0;
    let mut i: usize = 0;
    while i < s.len()
        invariant
            i <= s@.len(),
            all_dec_digits(s@.take(i as int)),
            acc == dec_value(s@.take(i as int)),
        decreases s.len() - i,
    {
        let b = s[i];
        if !(48 <= b && b <= 57) {
            assert(!is_dec_digit(s@[i as int]));
            return None;
        }
        let d = (b - 48) as u64;
        proof {
            let t = s@.take(i + 1);
            assert(t.drop_last() =~= s@.take(i as int));
            assert(t.last() == b);
            assert(dec_value(t) == acc * 10 + d);
            assert forall|j: int| 0 <= j < t.len() implies is_dec_digit(#[trigger] t[j]) by {
                if j < i {
                    assert(t[j] == s@.take(i as int)[j]);
                }
            }
            lemma_dec_value_monotone(s@, i + 1);
        }
        if acc > (u64::MAX - d) / 10 {
            assert(acc * 10 + d > u64::MAX) by (nonlinear_arith)
                requires
                    acc > (u64::MAX - d) / 10,
                    d <= 9,
            ;
            return None;
        }
        assert(acc * 10 + d <= u64::MAX) by (nonlinear_arith)
            requires
                acc <= (u64::MAX - d) / 10,
                d <= 9,
        ;
        acc = acc * 10 + d;
        i += 1;
    }
    assert(s@.take(i as int) =~= s@);
    Some(acc)
}

/// A prefix of a digit string names no larger number than the whole.
pub proof fn lemma_dec_value_monotone(s: Seq<u8>, k: int)
    requires
        0 <= k <= s.len(),
    ensures
        dec_value(s.take(k)) <= dec_value(s),
    decreases s.len() - k,
{
    if k < s.len() {
        lemma_dec_value_monotone(s, k + 1);
        let t = s.take(k + 1);
        assert(t.drop_last() =~= s.take(k));
        assert(dec_value(t) == dec_value(s.take(k)) * 10 + (t.last() - 48) as nat);
        assert(dec_value(s.take(k)) <= dec_value(t)) by (nonlinear_arith)
            requires
                dec_value(t) == dec_value(s.take(k)) * 10 + (t.last() - 48) as nat,
        ;
    } else {
        assert(s.take(k) =~= s);
    }
}

} // verus!
