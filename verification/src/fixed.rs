//! Decimal numbers without floating point: a whole count of thousandths.

use vstd::prelude::*;

verus! {

/// A decimal number held as a whole count of thousandths: 53.57 is 53570.
#[derive(Debug, Clone, Copy, PartialEq, Eq, Structural)]
pub struct Fixed {
    pub thousandths: i64,
}

/// `x` where it fits into 64 bits with a sign, else the nearest bound.
pub open spec fn sat(x: int) -> int {
    if x < i64::MIN {
        i64::MIN as int
    } else if x > i64::MAX {
        i64::MAX as int
    } else {
        x
    }
}

/// `a` divided by `b`, rounded towards zero.
pub open spec fn quotient(a: int, b: int) -> int
    recommends
        b > 0,
{
    if a >= 0 {
        a / b
    } else {
        -((-a) / b)
    }
}

/// `num` as a percentage of `den`, in thousandths of a percent, rounded
/// towards zero.
pub open spec fn percent_of(num: int, den: int) -> int
    recommends
        den > 0,
{
    quotient(num * 100_000, den)
}

/// The percentage that the count `part` is of the count `whole`, and zero
/// where `whole` is zero.
pub open spec fn share(part: int, whole: int) -> int {
    if whole > 0 {
        sat(percent_of(part, whole))
    } else {
        0
    }
}

impl Fixed {
    /// The number, counted in thousandths.
    pub open spec fn value(self) -> int {
        self.thousandths as int
    }

    /// The whole number `n`.
    pub fn whole(n: u32) -> (r: Fixed)
        ensures
            r.value() == n * 1000,
    {
        Fixed { thousandths: (n as i64) * 1000 }
    }

    /// The number nearest to `x` thousandths.
    pub fn nearest(x: i128) -> (r: Fixed)
        ensures
            r.value() == sat(x as int),
    {
        if x < i64::MIN as i128 {
            Fixed { thousandths: i64::MIN }
        } else if x > i64::MAX as i128 {
            Fixed { thousandths: i64::MAX }
        } else {
            Fixed { thousandths: x as i64 }
        }
    }

    /// `part` as a percentage of `whole`; zero where `whole` is zero.
    pub fn share_of(part: u64, whole: u64) -> (r: Fixed)
        ensures
            r.value() == share(part as int, whole as int),
    {
        if whole > 0 {
            Fixed::nearest(divide(part as i128 * 100_000, whole as i128))
        } else {
            Fixed { thousandths: 0 }
        }
    }

    /// `self` as a percentage of `den`, and zero where `den` is not above
    /// zero.
    pub fn percent_against(self, den: Fixed) -> (r: Fixed)
        ensures
            r.value() == if den.value() > 0 {
                sat(percent_of(self.value(), den.value()))
            } else {
                0
            },
    {
        if den.thousandths > 0 {
            Fixed::nearest(divide(self.thousandths as i128 * 100_000, den.thousandths as i128))
        } else {
            Fixed { thousandths: 0 }
        }
    }

    /// `self` divided by the whole number `by`, rounded towards zero.
    pub fn divided(self, by: u32) -> (r: Fixed)
        requires
            by > 0,
        ensures
            r.value() == quotient(self.value(), by as int),
    {
        let q = divide(self.thousandths as i128, by as i128);
        proof {
            lemma_quotient_bounds(self.value(), by as int);
        }
        Fixed { thousandths: q as i64 }
    }
}

/// Division that rounds towards zero.
pub(crate) fn divide(a: i128, b: i128) -> (q: i128)
    requires
        b > 0,
        a > i128::MIN,
    ensures
        q == quotient(a as int, b as int),
{
    if a >= 0 {
        a / b
    } else {
        let n = (-a) / b;
        proof {
            lemma_quotient_bounds(a as int, b as int);
        }
        -n
    }
}

/// A quotient is no further from zero than what was divided.
pub proof fn lemma_quotient_bounds(a: int, b: int)
    requires
        b > 0,
    ensures
        a >= 0 ==> 0 <= quotient(a, b) <= a,
        a <= 0 ==> a <= quotient(a, b) <= 0,
{
    if a >= 0 {
        assert(0 <= a / b <= a) by (nonlinear_arith)
            requires
                a >= 0,
                b > 0,
        ;
    } else {
        let m = -a;
        assert(0 <= m / b <= m) by (nonlinear_arith)
            requires
                m >= 0,
                b > 0,
        ;
    }
}

/// A percentage lies below a whole number of percent exactly when the part
/// lies below that many hundredths of the whole.
pub proof fn lemma_percent_below(part: int, whole: int, limit: int)
    requires
        part >= 0,
        whole > 0,
        limit >= 0,
    ensures
        percent_of(part, whole) < limit * 1000 <==> part * 100 < limit * whole,
{
    let a = part * 100_000;
    let n = limit * 1000;
    assert((a / whole < n) <==> (a < n * whole)) by (nonlinear_arith)
        requires
            a >= 0,
            whole > 0,
            n >= 0,
    ;
    assert(n * whole == 1000 * (limit * whole)) by (nonlinear_arith)
        requires
            n == limit * 1000,
    ;
}

/// A part that does not exceed its whole is between 0 and 100 percent of it.
pub proof fn lemma_share_bounds(part: int, whole: int)
    requires
        0 <= part <= whole,
    ensures
        0 <= share(part, whole) <= 100_000,
{
    if whole > 0 {
        let a = part * 100_000;
        assert(0 <= a / whole <= 100_000) by (nonlinear_arith)
            requires
                0 <= a <= 100_000 * whole,
                whole > 0,
        ;
    }
}

} // verus!
