//! Decimal numerals: reading whole numbers and fractions, writing whole
//! numbers.

use vstd::prelude::*;
use crate::fixed::{sat, Fixed};
use crate::text::{leading, leading_run, part, CharClass};

verus! {

/// One of the ten digits `0` to `9`.
pub open spec fn is_digit(c: char) -> bool {
    48 <= c as u32 <= 57
}

/// What the digit `c` counts.
pub open spec fn digit_value(c: char) -> nat {
    (c as u32 - 48) as nat
}

/// The character for the digit `d`.
pub open spec fn digit_char(d: nat) -> char {
    (d + 48) as char
}

/// Digits only, or nothing.
pub open spec fn all_digits(s: Seq<char>) -> bool {
    forall|i: int| 0 <= i < s.len() ==> is_digit(#[trigger] s[i])
}

/// The number that the digits of `s` write in base ten.
pub open spec fn digits_value(s: Seq<char>) -> nat
    decreases s.len(),
{
    if s.len() == 0 {
        0
    } else {
        digits_value(s.drop_last()) * 10 + digit_value(s.last())
    }
}

/// The whole number that `s` writes: an optional `+`, then one digit or more
/// and nothing else.
pub open spec fn whole_numeral(s: Seq<char>) -> Option<nat> {
    let body = if s.len() > 0 && s[0] == '+' {
        s.drop_first()
    } else {
        s
    };
    if body.len() > 0 && all_digits(body) {
        Some(digits_value(body))
    } else {
        None
    }
}

/// The number that `s` writes, if it writes one that fits into 64 bits.
pub open spec fn numeral_u64(s: Seq<char>) -> Option<u64> {
    match whole_numeral(s) {
        Some(v) => if v <= u64::MAX {
            Some(v as u64)
        } else {
            None
        },
        None => None,
    }
}

/// The number that `s` writes, if it writes one that fits into 32 bits.
pub open spec fn numeral_u32(s: Seq<char>) -> Option<u32> {
    match whole_numeral(s) {
        Some(v) => if v <= u32::MAX {
            Some(v as u32)
        } else {
            None
        },
        None => None,
    }
}

/// The digit at position `i` of `s`, and zero past its end.
pub open spec fn digit_at(s: Seq<char>, i: int) -> nat {
    if 0 <= i < s.len() {
        digit_value(s[i])
    } else {
        0
    }
}

/// The thousandths that the digits after a decimal point write; a fourth
/// digit and what follows it are cut off.
pub open spec fn fraction_thousandths(s: Seq<char>) -> nat {
    digit_at(s, 0) * 100 + digit_at(s, 1) * 10 + digit_at(s, 2)
}

/// The thousandths that the decimal numeral `s` writes: an optional sign,
/// digits, and optionally a point and more digits, with a digit on at least
/// one side of the point. Exponents and the names of infinities are no
/// numerals.
pub open spec fn decimal_numeral(s: Seq<char>) -> Option<int> {
    let signed = s.len() > 0 && (s[0] == '+' || s[0] == '-');
    let body = if signed {
        s.drop_first()
    } else {
        s
    };
    let n = leading(body, CharClass::IsNot('.')) as int;
    let whole = body.take(n);
    let fraction = if n < body.len() {
        body.skip(n + 1)
    } else {
        Seq::empty()
    };
    if all_digits(whole) && all_digits(fraction) && whole.len() + fraction.len() > 0 {
        let size = digits_value(whole) * 1000 + fraction_thousandths(fraction);
        if signed && s[0] == '-' {
            Some(-size)
        } else {
            Some(size as int)
        }
    } else {
        None
    }
}

/// The decimal numeral of `n`, without sign or leading zeros.
pub open spec fn decimal_text(n: nat) -> Seq<char>
    decreases n,
{
    if n < 10 {
        seq![digit_char(n)]
    } else {
        decimal_text(n / 10).push(digit_char(n % 10))
    }
}

/// The digits of a prefix write no more than the digits of the whole.
pub proof fn lemma_digits_prefix(s: Seq<char>, k: int)
    requires
        0 <= k <= s.len(),
    ensures
        digits_value(s.take(k)) <= digits_value(s),
    decreases s.len() - k,
{
    if k < s.len() {
        lemma_digits_prefix(s, k + 1);
        assert(s.take(k + 1).drop_last() =~= s.take(k));
    } else {
        assert(s.take(k) =~= s);
    }
}

/// Whether `c` is a digit.
pub fn is_digit_char(c: char) -> (r: bool)
    ensures
        r == is_digit(c),
{
    let n: u32 = c as u32;
    48 <= n && n <= 57
}

/// Whether `s` holds digits only.
pub fn only_digits(s: &[char]) -> (r: bool)
    ensures
        r == all_digits(s@),
{
    let mut i: usize = 0;
    while i < s.len()
        invariant
            i <= s@.len(),
            forall|j: int| 0 <= j < i ==> is_digit(#[trigger] s@[j]),
        decreases s@.len() - i,
    {
        if !is_digit_char(s[i]) {
            return false;
        }
        i += 1;
    }
    true
}

/// The number that the digits of `s` write, unless it exceeds 64 bits.
fn read_digits(s: &[char]) -> (r: Option<u64>)
    requires
        all_digits(s@),
    ensures
        r == if digits_value(s@) <= u64::MAX {
            Some(digits_value(s@) as u64)
        } else {
            None::<u64>
        },
{
    let mut acc: u64 = 0;
    let mut i: usize = 0;
    assert(s@.take(0) =~= Seq::<char>::empty());
    while i < s.len()
        invariant
            i <= s@.len(),
            all_digits(s@),
            acc == digits_value(s@.take(i as int)),
        decreases s@.len() - i,
    {
        let d: u64 = (s[i] as u32 - 48) as u64;
        proof {
            assert(s@.take(i + 1).drop_last() =~= s@.take(i as int));
            assert(s@.take(i + 1).last() == s@[i as int]);
            lemma_digits_prefix(s@, i + 1);
        }
        if acc > (u64::MAX - d) / 10 {
            assert(digits_value(s@.take(i + 1)) > u64::MAX);
            return None;
        }
        acc = acc * 10 + d;
        i += 1;
    }
    proof {
        assert(s@.take(s@.len() as int) =~= s@);
    }
    Some(acc)
}

/// Reads a whole number of at most 64 bits.
pub fn read_u64(s: &[char]) -> (r: Option<u64>)
    ensures
        r == numeral_u64(s@),
{
    let start: usize = if s.len() > 0 && s[0] == '+' {
        1
    } else {
        0
    };
    let body = part(s, start, s.len());
    proof {
        if start == 1 {
            assert(body@ =~= s@.drop_first());
        } else {
            assert(body@ =~= s@);
        }
    }
    if body.len() == 0 || !only_digits(body) {
        return None;
    }
    read_digits(body)
}

/// Reads a whole number of at most 32 bits.
pub fn read_u32(s: &[char]) -> (r: Option<u32>)
    ensures
        r == numeral_u32(s@),
{
    match read_u64(s) {
        Some(v) => if v <= u32::MAX as u64 {
            Some(v as u32)
        } else {
            None
        },
        None => None,
    }
}

/// The digit at position `i` of `s`, and zero past its end.
fn read_digit_at(s: &[char], i: usize) -> (d: u64)
    requires
        all_digits(s@),
    ensures
        d == digit_at(s@, i as int),
        d <= 9,
{
    if i < s.len() {
        (s[i] as u32 - 48) as u64
    } else {
        0
    }
}

/// Reads a decimal numeral as thousandths; a number beyond 64 bits comes out
/// as the nearest bound.
pub fn read_fixed(s: &[char]) -> (r: Option<Fixed>)
    ensures
        r == match decimal_numeral(s@) {
            Some(v) => Some(Fixed { thousandths: sat(v) as i64 }),
            None => None::<Fixed>,
        },
{
    let signed = s.len() > 0 && (s[0] == '+' || s[0] == '-');
    let negative = signed && s[0] == '-';
    let start: usize = if signed {
        1
    } else {
        0
    };
    let body = part(s, start, s.len());
    proof {
        if signed {
            assert(body@ =~= s@.drop_first());
        } else {
            assert(body@ =~= s@);
        }
    }
    let n = leading_run(body, CharClass::IsNot('.'));
    let whole = part(body, 0, n);
    let fraction = if n < body.len() {
        part(body, n + 1, body.len())
    } else {
        part(body, n, n)
    };
    proof {
        assert(whole@ =~= body@.take(n as int));
        if n < body@.len() {
            assert(fraction@ =~= body@.skip(n + 1));
        } else {
            assert(fraction@ =~= Seq::<char>::empty());
        }
    }
    if !only_digits(whole) || !only_digits(fraction) || (whole.len() == 0 && fraction.len()
        == 0) {
        return None;
    }
    let small: u64 = read_digit_at(fraction, 0) * 100 + read_digit_at(fraction, 1) * 10
        + read_digit_at(fraction, 2);
    let size: i128 = match read_digits(whole) {
        Some(w) => (w as i128) * 1000 + small as i128,
        None => i128::MAX,
    };
    if negative {
        Some(Fixed::nearest(-size))
    } else {
        Some(Fixed::nearest(size))
    }
}

/// Writes `n` as a decimal numeral.
pub fn write_u64(n: u64) -> (r: Vec<char>)
    ensures
        r@ == decimal_text(n as nat),
    decreases n,
{
    if n < 10 {
        let mut r: Vec<char> = Vec::new();
        r.push((48u8 + n as u8) as char);
        assert(r@ =~= seq![digit_char(n as nat)]);
        r
    } else {
        let mut r = write_u64(n / 10);
        r.push((48u8 + (n % 10) as u8) as char);
        r
    }
}

/// `kb` kilobytes in bytes; beyond 64 bits, the largest number of 64 bits.
pub open spec fn kilobytes(kb: u64) -> u64 {
    if kb * 1024 <= u64::MAX {
        (kb * 1024) as u64
    } else {
        u64::MAX
    }
}

/// Converts kilobytes to bytes.
pub fn to_bytes(kb: u64) -> (r: u64)
    ensures
        r == kilobytes(kb),
{
    if kb <= u64::MAX / 1024 {
        kb * 1024
    } else {
        u64::MAX
    }
}

} // verus!
