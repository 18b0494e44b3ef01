//! Whole-unit vectors, exact fractions and the arithmetic they share.

use vstd::prelude::*;

verus! {

/// Absolute value of a mathematical integer.
pub open spec fn abs(v: int) -> int {
    if v < 0 {
        -v
    } else {
        v
    }
}

/// Sign of a mathematical integer: `-1` below zero, `1` otherwise.
///
/// Zero counts as positive, so a sign is never zero and can always be used
/// as a direction.
pub open spec fn sign(v: int) -> int {
    if v < 0 {
        -1
    } else {
        1
    }
}

/// `magnitude` taken with the sign of `toward`, zero counting as positive.
pub open spec fn directed(magnitude: int, toward: int) -> int {
    if toward < 0 {
        -magnitude
    } else {
        magnitude
    }
}

/// `v` limited to the closed range from `lo` to `hi`.
pub open spec fn clamp(v: int, lo: int, hi: int) -> int {
    if v < lo {
        lo
    } else if v > hi {
        hi
    } else {
        v
    }
}

/// The whole number nearest to `n / d`, a tie going away from zero.
pub open spec fn round_div(n: int, d: int) -> int
    recommends
        d > 0,
{
    if n >= 0 {
        (2 * n + d) / (2 * d)
    } else {
        -((2 * (-n) + d) / (2 * d))
    }
}

/// `round_div` picks a whole number at most half a unit from `n / d`, and on
/// a tie the one farther from zero.
pub proof fn lemma_round_div_nearest(n: int, d: int)
    requires
        d > 0,
    ensures
        2 * abs(round_div(n, d) * d - n) <= d,
        2 * abs(round_div(n, d) * d - n) == d ==> abs(round_div(n, d) * d) > abs(n),
        n >= 0 ==> round_div(n, d) >= 0,
        n <= 0 ==> round_div(n, d) <= 0,
        round_div(-n, d) == -round_div(n, d),
{
    let m = abs(n);
    let q = (2 * m + d) / (2 * d);
    assert(0 <= 2 * m + d - q * (2 * d) < 2 * d && q >= 0) by (nonlinear_arith)
        requires
            d > 0,
            m >= 0,
            q == (2 * m + d) / (2 * d),
    ;
    assert(q * (2 * d) == 2 * (q * d)) by (nonlinear_arith);
    assert((-q) * d == -(q * d)) by (nonlinear_arith);
    if n == 0 {
        assert(q == 0) by (nonlinear_arith)
            requires
                d > 0,
                q >= 0,
                0 <= d - q * (2 * d),
        ;
    }
}

/// Rounding does not leave a range between two whole numbers.
pub proof fn lemma_round_div_between(n: int, d: int, lo: int, hi: int)
    requires
        d > 0,
        lo * d <= n <= hi * d,
    ensures
        lo <= round_div(n, d) <= hi,
{
    lemma_round_div_nearest(n, d);
    let r = round_div(n, d);
    if r > hi {
        assert(r * d >= hi * d + d) by (nonlinear_arith)
            requires
                r >= hi + 1,
                d > 0,
        ;
    }
    if r < lo {
        assert(r * d <= lo * d - d) by (nonlinear_arith)
            requires
                r <= lo - 1,
                d > 0,
        ;
    }
}

/// The product of two 64-bit numbers, which always fits in 128 bits.
pub fn wide_product(a: i64, b: i64) -> (r: i128)
    ensures
        r == a * b,
{
    assert(-0x4000_0000_0000_0000_0000_0000_0000_0000 <= a * b
        <= 0x4000_0000_0000_0000_0000_0000_0000_0000) by (nonlinear_arith)
        requires
            -0x8000_0000_0000_0000 <= a <= 0x8000_0000_0000_0000,
            -0x8000_0000_0000_0000 <= b <= 0x8000_0000_0000_0000,
    ;
    (a as i128) * (b as i128)
}

/// A bound on a product from bounds on its factors.
pub proof fn lemma_product_bound(a: int, b: int, la: int, lb: int)
    by (nonlinear_arith)
    requires
        -la <= a <= la,
        -lb <= b <= lb,
    ensures
        -(la * lb) <= a * b <= la * lb,
{
}

/// A point or a displacement on the whole-unit grid.
#[derive(Clone, Copy, Debug, PartialEq, Eq, Structural)]
pub struct Vec2 {
    pub x: i32,
    pub y: i32,
}

impl Vec2 {
    pub fn new(x: i32, y: i32) -> (r: Vec2)
        ensures
            r == (Vec2 { x, y }),
    {
        Vec2 { x, y }
    }

    /// The origin, and the displacement that moves nothing.
    pub fn zero() -> (r: Vec2)
        ensures
            r == (Vec2 { x: 0, y: 0 }),
    {
        Vec2 { x: 0, y: 0 }
    }

    pub open spec fn is_zero(self) -> bool {
        self.x == 0 && self.y == 0
    }
}

/// A grid position with a drawing layer, or a velocity in units per second.
#[derive(Clone, Copy, Debug, PartialEq, Eq, Structural)]
pub struct Vec3 {
    pub x: i32,
    pub y: i32,
    pub z: i32,
}

impl Vec3 {
    pub fn new(x: i32, y: i32, z: i32) -> (r: Vec3)
        ensures
            r == (Vec3 { x, y, z }),
    {
        Vec3 { x, y, z }
    }

    pub fn zero() -> (r: Vec3)
        ensures
            r == (Vec3 { x: 0, y: 0, z: 0 }),
    {
        Vec3 { x: 0, y: 0, z: 0 }
    }
}

/// The largest numerator or denominator that two fractions may have when
/// they are compared with each other: 2^62.
pub const FRACTION_LIMIT: i128 = 0x4000_0000_0000_0000;

/// An exact fraction `num / den` with a positive denominator.
///
/// Fractions are kept as they were computed and are not reduced: two of them
/// can stand for the same number and differ as values. `same_value` and
/// `less_than` compare the numbers.
#[derive(Clone, Copy, Debug, PartialEq, Eq, Structural)]
pub struct Fraction {
    pub num: i128,
    pub den: i128,
}

impl Fraction {
    /// The denominator is positive.
    pub open spec fn wf(self) -> bool {
        self.den > 0
    }

    /// Well formed, and small enough to be compared without overflow.
    pub open spec fn small(self) -> bool {
        &&& 0 < self.den <= FRACTION_LIMIT
        &&& -FRACTION_LIMIT <= self.num <= FRACTION_LIMIT
    }

    /// The fraction lies in the closed range from zero to one.
    pub open spec fn is_unit(self) -> bool {
        self.den > 0 && 0 <= self.num <= self.den
    }

    /// `self` is a smaller number than `other`.
    pub open spec fn lt(self, other: Fraction) -> bool {
        self.num * other.den < other.num * self.den
    }

    /// `self` is the same number as `other`.
    pub open spec fn eqv(self, other: Fraction) -> bool {
        self.num * other.den == other.num * self.den
    }

    /// `self` is at most `other`.
    pub open spec fn le(self, other: Fraction) -> bool {
        self.num * other.den <= other.num * self.den
    }

    /// The whole number `v` as a fraction.
    pub open spec fn whole(v: int) -> Fraction {
        Fraction { num: v as i128, den: 1 }
    }

    /// The whole number nearest to the fraction, a tie going away from zero.
    pub open spec fn rounded(self) -> int {
        round_div(self.num as int, self.den as int)
    }

    pub fn new(num: i128, den: i128) -> (r: Fraction)
        requires
            den > 0,
        ensures
            r == (Fraction { num, den }),
    {
        Fraction { num, den }
    }

    pub fn from_int(v: i64) -> (r: Fraction)
        ensures
            r == Fraction::whole(v as int),
            r.num == v,
            r.den == 1,
    {
        Fraction { num: v as i128, den: 1 }
    }

    pub fn zero() -> (r: Fraction)
        ensures
            r == (Fraction { num: 0, den: 1 }),
    {
        Fraction { num: 0, den: 1 }
    }

    pub fn one() -> (r: Fraction)
        ensures
            r == (Fraction { num: 1, den: 1 }),
    {
        Fraction { num: 1, den: 1 }
    }

    /// Whether `self` is a smaller number than `other`.
    pub fn less_than(&self, other: &Fraction) -> (r: bool)
        requires
            self.small(),
            other.small(),
        ensures
            r == self.lt(*other),
    {
        proof {
            lemma_product_bound(
                self.num as int,
                other.den as int,
                FRACTION_LIMIT as int,
                FRACTION_LIMIT as int,
            );
            lemma_product_bound(
                other.num as int,
                self.den as int,
                FRACTION_LIMIT as int,
                FRACTION_LIMIT as int,
            );
        }
        self.num * other.den < other.num * self.den
    }

    /// Whether `self` is the same number as `other`.
    pub fn same_value(&self, other: &Fraction) -> (r: bool)
        requires
            self.small(),
            other.small(),
        ensures
            r == self.eqv(*other),
    {
        proof {
            lemma_product_bound(
                self.num as int,
                other.den as int,
                FRACTION_LIMIT as int,
                FRACTION_LIMIT as int,
            );
            lemma_product_bound(
                other.num as int,
                self.den as int,
                FRACTION_LIMIT as int,
                FRACTION_LIMIT as int,
            );
        }
        self.num * other.den == other.num * self.den
    }

    /// The whole number nearest to the fraction, a tie going away from zero.
    pub fn round(&self) -> (r: i128)
        requires
            self.den > 0,
            self.den <= FRACTION_LIMIT,
            -0x2000_0000_0000_0000_0000_0000_0000_0000 <= self.num
                <= 0x2000_0000_0000_0000_0000_0000_0000_0000,
        ensures
            r == self.rounded(),
    {
        let twice_den: i128 = 2 * self.den;
        if self.num >= 0 {
            let shifted: i128 = 2 * self.num + self.den;
            shifted / twice_den
        } else {
            let shifted: i128 = 2 * (-self.num) + self.den;
            -(shifted / twice_den)
        }
    }
}

/// Of three fractions in ascending order the first is at most the last.
pub proof fn lemma_le_transitive(a: Fraction, b: Fraction, c: Fraction)
    requires
        a.wf(),
        b.wf(),
        c.wf(),
        a.le(b),
        b.le(c),
    ensures
        a.le(c),
{
    let (an, ad) = (a.num as int, a.den as int);
    let (bn, bd) = (b.num as int, b.den as int);
    let (cn, cd) = (c.num as int, c.den as int);
    assert(an * cd <= cn * ad) by (nonlinear_arith)
        requires
            ad > 0,
            bd > 0,
            cd > 0,
            an * bd <= bn * ad,
            bn * cd <= cn * bd,
    {
        assert((an * bd) * cd <= (bn * ad) * cd);
        assert((bn * cd) * ad <= (cn * bd) * ad);
        assert((an * cd) * bd <= (cn * ad) * bd);
    }
}

/// A fraction that is below a second one is below whatever the second one
/// is at most.
pub proof fn lemma_lt_le_transitive(a: Fraction, b: Fraction, c: Fraction)
    requires
        a.wf(),
        b.wf(),
        c.wf(),
        a.lt(b),
        b.le(c),
    ensures
        a.lt(c),
{
    let (an, ad) = (a.num as int, a.den as int);
    let (bn, bd) = (b.num as int, b.den as int);
    let (cn, cd) = (c.num as int, c.den as int);
    assert(an * cd < cn * ad) by (nonlinear_arith)
        requires
            ad > 0,
            bd > 0,
            cd > 0,
            an * bd < bn * ad,
            bn * cd <= cn * bd,
    {
        assert((an * bd) * cd < (bn * ad) * cd);
        assert((bn * cd) * ad <= (cn * bd) * ad);
        assert((an * cd) * bd < (cn * ad) * bd);
    }
}

/// A point whose coordinates are exact fractions.
#[derive(Clone, Copy, Debug, PartialEq, Eq, Structural)]
pub struct FracVec2 {
    pub x: Fraction,
    pub y: Fraction,
}

impl FracVec2 {
    /// The grid point `v` with fractional coordinates.
    pub open spec fn whole(v: Vec2) -> FracVec2 {
        FracVec2 { x: Fraction::whole(v.x as int), y: Fraction::whole(v.y as int) }
    }

    pub fn from_vec2(v: Vec2) -> (r: FracVec2)
        ensures
            r == FracVec2::whole(v),
    {
        FracVec2 { x: Fraction::from_int(v.x as i64), y: Fraction::from_int(v.y as i64) }
    }
}

} // verus!
