//! Saturating decimal fixed-point numbers.
//!
//! A [`Fixed`] counts millionths. Its value is `raw / SCALE`, kept within
//! `±LIMIT / SCALE` (four million million). Every operation is total: a result
//! beyond the range is pinned to the nearest bound, and a division or a product
//! is rounded toward zero, so that negating an operand negates the result.
//!
//! The arithmetic is specified over `int`: [`sat`], [`tdiv`] and [`isqrt`] are
//! the whole vocabulary, and each operation of `Fixed` has a `*_spec` twin
//! written with them.
use std::ops::{Add, Div, Mul, Neg, Sub};
use vstd::arithmetic::div_mod::{lemma_div_is_ordered, lemma_div_pos_is_pos, lemma_fundamental_div_mod, lemma_mod_bound};
use vstd::prelude::*;

verus! {

/// Number of raw units in one.
pub const SCALE: i64 = 1_000_000;

/// Largest magnitude of a raw count.
pub const LIMIT: i64 = 4_000_000_000_000_000_000;

/// `x` pinned into `-LIMIT ..= LIMIT`.
pub open spec fn sat(x: int) -> int {
    if x > LIMIT {
        LIMIT as int
    } else if x < -LIMIT {
        -(LIMIT as int)
    } else {
        x
    }
}

/// Quotient of `n` by `d`, rounded toward zero. Zero where `d` is zero.
pub open spec fn tdiv(n: int, d: int) -> int {
    if d > 0 {
        if n >= 0 {
            n / d
        } else {
            -((-n) / d)
        }
    } else if d < 0 {
        if n >= 0 {
            -(n / (-d))
        } else {
            (-n) / (-d)
        }
    } else {
        0
    }
}

/// A quotient rounded toward zero lies from the exact quotient toward zero, less
/// than one away.
pub proof fn lemma_tdiv_bounds(n: int, d: int)
    requires
        d > 0,
    ensures
        n >= 0 ==> 0 <= tdiv(n, d) * d <= n < tdiv(n, d) * d + d,
        n <= 0 ==> tdiv(n, d) * d - d < n <= tdiv(n, d) * d <= 0,
        n >= 0 ==> tdiv(n, d) >= 0,
        n <= 0 ==> tdiv(n, d) <= 0,
{
    if n >= 0 {
        lemma_fundamental_div_mod(n, d);
        lemma_mod_bound(n, d);
        lemma_div_pos_is_pos(n, d);
        assert(d * (n / d) == (n / d) * d) by (nonlinear_arith);
    } else {
        lemma_fundamental_div_mod(-n, d);
        lemma_mod_bound(-n, d);
        lemma_div_pos_is_pos(-n, d);
        assert(d * ((-n) / d) == ((-n) / d) * d) by (nonlinear_arith);
        assert((-((-n) / d)) * d == -(((-n) / d) * d)) by (nonlinear_arith);
    }
}

/// Rounding toward zero keeps the order of the dividends.
pub proof fn lemma_tdiv_monotonic(x: int, y: int, d: int)
    requires
        d > 0,
        x <= y,
    ensures
        tdiv(x, d) <= tdiv(y, d),
{
    if x >= 0 {
        lemma_div_is_ordered(x, y, d);
    } else if y < 0 {
        lemma_div_is_ordered(-y, -x, d);
    } else {
        lemma_div_pos_is_pos(-x, d);
        lemma_div_pos_is_pos(y, d);
    }
}

/// Negating the dividend negates the quotient.
pub proof fn lemma_tdiv_neg(n: int, d: int)
    requires
        d > 0,
    ensures
        tdiv(-n, d) == -tdiv(n, d),
{
    if n == 0 {
        assert(0int / d == 0) by (nonlinear_arith)
            requires
                d > 0,
        ;
    }
}

/// `r` is the integer square root of `n`: the greatest `r` with `r * r <= n`.
pub open spec fn is_isqrt(n: int, r: int) -> bool {
    0 <= r && r * r <= n && n < (r + 1) * (r + 1)
}

/// Integer square root of `n`; zero for a negative `n`.
pub open spec fn isqrt(n: int) -> int {
    if n <= 0 {
        0
    } else {
        choose|r: int| #[trigger] is_isqrt(n, r)
    }
}

/// Two integer square roots of one number are equal.
pub proof fn lemma_isqrt_unique(n: int, r1: int, r2: int)
    requires
        is_isqrt(n, r1),
        is_isqrt(n, r2),
    ensures
        r1 == r2,
{
    if r1 < r2 {
        assert((r1 + 1) * (r1 + 1) <= r2 * r2) by (nonlinear_arith)
            requires
                0 <= r1,
                r1 + 1 <= r2,
        ;
    } else if r2 < r1 {
        assert((r2 + 1) * (r2 + 1) <= r1 * r1) by (nonlinear_arith)
            requires
                0 <= r2,
                r2 + 1 <= r1,
        ;
    }
}

/// Every natural number has an integer square root.
pub proof fn lemma_isqrt_exists(n: int)
    requires
        0 <= n,
    ensures
        exists|r: int| #[trigger] is_isqrt(n, r),
    decreases n,
{
    if n == 0 {
        assert(is_isqrt(0, 0));
    } else {
        lemma_isqrt_exists(n - 1);
        let r = choose|r: int| #[trigger] is_isqrt(n - 1, r);
        if (r + 1) * (r + 1) <= n {
            assert((r + 2) * (r + 2) > (r + 1) * (r + 1)) by (nonlinear_arith)
                requires
                    0 <= r,
            ;
            assert(is_isqrt(n, r + 1));
        } else {
            assert(is_isqrt(n, r));
        }
    }
}

/// `isqrt` is the integer square root, and the only one.
pub proof fn lemma_isqrt(n: int, r: int)
    requires
        0 <= n,
    ensures
        is_isqrt(n, isqrt(n)),
        is_isqrt(n, r) ==> r == isqrt(n),
{
    if n == 0 {
        assert(is_isqrt(0, 0));
        if is_isqrt(n, r) {
            lemma_isqrt_unique(n, r, 0);
        }
    } else {
        lemma_isqrt_exists(n);
        if is_isqrt(n, r) {
            lemma_isqrt_unique(n, r, isqrt(n));
        }
    }
}

/// The integer square root does not decrease when its argument grows.
pub proof fn lemma_isqrt_monotonic(m: int, n: int)
    requires
        m <= n,
    ensures
        isqrt(m) <= isqrt(n),
{
    if m > 0 {
        lemma_isqrt(m, 0);
        lemma_isqrt(n, 0);
        let a = isqrt(m);
        let b = isqrt(n);
        if b < a {
            assert((b + 1) * (b + 1) <= a * a) by (nonlinear_arith)
                requires
                    0 <= b,
                    b + 1 <= a,
            ;
        }
    } else if n > 0 {
        lemma_isqrt(n, 0);
    }
}

/// A product of two counts within the limit fits sixteen-byte arithmetic three times over.
pub proof fn lemma_product_bound(a: int, b: int)
    requires
        -LIMIT <= a <= LIMIT,
        -LIMIT <= b <= LIMIT,
    ensures
        -(LIMIT * LIMIT) <= a * b <= LIMIT * LIMIT,
        LIMIT * LIMIT == 16_000_000_000_000_000_000_000_000_000_000_000_000,
{
    assert(-(LIMIT * LIMIT) <= a * b <= LIMIT * LIMIT) by (nonlinear_arith)
        requires
            -LIMIT <= a <= LIMIT,
            -LIMIT <= b <= LIMIT,
    ;
    assert(LIMIT * LIMIT == 16_000_000_000_000_000_000_000_000_000_000_000_000) by (nonlinear_arith)
        requires
            LIMIT == 4_000_000_000_000_000_000,
    ;
}

/// `a` times the scale.
pub fn times_scale(a: i64) -> (r: i128)
    ensures
        r == a * SCALE,
{
    assert(-0x8000_0000_0000_0000 * 1_000_000 <= a * 1_000_000 <= 0x8000_0000_0000_0000 * 1_000_000);
    (a as i128) * 1_000_000
}

/// Quotient rounded toward zero, for a divisor other than zero.
pub fn quotient(n: i128, d: i128) -> (q: i128)
    requires
        d != 0,
        -0x4000_0000_0000_0000_0000_0000_0000_0000 <= n <= 0x4000_0000_0000_0000_0000_0000_0000_0000,
        -0x4000_0000_0000_0000_0000_0000_0000_0000 <= d <= 0x4000_0000_0000_0000_0000_0000_0000_0000,
    ensures
        q == tdiv(n as int, d as int),
{
    if d > 0 {
        n / d
    } else {
        (-n) / (-d)
    }
}

/// Integer square root of `n`, by bisection.
pub fn isqrt_u128(n: u128) -> (r: u128)
    ensures
        r == isqrt(n as int),
        r < 0x1_0000_0000_0000_0000,
{
    let mut lo: u128 = 0;
    let mut hi: u128 = 0x1_0000_0000_0000_0000;
    assert(n < hi * hi) by (nonlinear_arith)
        requires
            n <= 0xffff_ffff_ffff_ffff_ffff_ffff_ffff_ffff,
            hi == 0x1_0000_0000_0000_0000,
    ;
    while hi - lo > 1
        invariant
            lo < hi <= 0x1_0000_0000_0000_0000,
            lo * lo <= n < hi * hi,
        decreases hi - lo,
    {
        let mid: u128 = lo + (hi - lo) / 2;
        assert(mid * mid <= 0xffff_ffff_ffff_ffff * 0xffff_ffff_ffff_ffff) by (nonlinear_arith)
            requires
                0 <= mid <= 0xffff_ffff_ffff_ffff,
        ;
        if mid * mid <= n {
            lo = mid;
        } else {
            hi = mid;
        }
    }
    proof {
        assert(is_isqrt(n as int, lo as int));
        lemma_isqrt(n as int, lo as int);
    }
    lo
}

/// A number with six decimal places, between minus and plus four million million.
#[derive(Clone, Copy, Debug, PartialEq, Eq, Structural)]
pub struct Fixed {
    /// Count of millionths. A count beyond `±LIMIT` reads as the nearest bound.
    pub raw: i64,
}

impl View for Fixed {
    type V = int;

    /// The count of millionths that this number stands for.
    open spec fn view(&self) -> int {
        sat(self.raw as int)
    }
}

impl Fixed {
    /// The number whose count of millionths is `x`, pinned into range.
    pub open spec fn of(x: int) -> Fixed {
        Fixed { raw: sat(x) as i64 }
    }

    /// Sum, pinned into range.
    pub open spec fn add_spec(self, rhs: Fixed) -> Fixed {
        Fixed::of(self@ + rhs@)
    }

    /// Difference, pinned into range.
    pub open spec fn sub_spec(self, rhs: Fixed) -> Fixed {
        Fixed::of(self@ - rhs@)
    }

    /// Product, rounded toward zero and pinned into range.
    pub open spec fn mul_spec(self, rhs: Fixed) -> Fixed {
        Fixed::of(tdiv(self@ * rhs@, SCALE as int))
    }

    /// Quotient, rounded toward zero and pinned into range. Dividing by zero
    /// gives the bound on the side of the dividend, and zero for zero.
    pub open spec fn div_spec(self, rhs: Fixed) -> Fixed {
        if rhs@ == 0 {
            Fixed::of(self@ * LIMIT)
        } else {
            Fixed::of(tdiv(self@ * SCALE, rhs@))
        }
    }

    /// The opposite number.
    pub open spec fn neg_spec(self) -> Fixed {
        Fixed::of(-self@)
    }

    /// Square root, rounded down; zero for a negative number.
    pub open spec fn sqrt_spec(self) -> Fixed {
        Fixed::of(isqrt(self@ * SCALE))
    }

    /// Magnitude.
    pub open spec fn abs_spec(self) -> Fixed {
        Fixed::of(if self@ < 0 { -self@ } else { self@ })
    }

    /// The smaller of two numbers.
    pub open spec fn min_spec(self, other: Fixed) -> Fixed {
        Fixed::of(if other@ < self@ { other@ } else { self@ })
    }

    /// The greater of two numbers.
    pub open spec fn max_spec(self, other: Fixed) -> Fixed {
        Fixed::of(if other@ > self@ { other@ } else { self@ })
    }

    /// Whole part, rounded toward zero.
    pub open spec fn trunc_spec(self) -> int {
        tdiv(self@, SCALE as int)
    }

    /// The number with the given count of millionths.
    pub fn from_raw(raw: i64) -> (r: Fixed)
        ensures
            r == Fixed::of(raw as int),
    {
        if raw > LIMIT {
            Fixed { raw: LIMIT }
        } else if raw < -LIMIT {
            Fixed { raw: -LIMIT }
        } else {
            Fixed { raw }
        }
    }

    /// The whole number `n`.
    pub fn from_int(n: i64) -> (r: Fixed)
        ensures
            r == Fixed::of(n * SCALE),
    {
        Fixed::from_wide(times_scale(n))
    }

    /// The quotient `num / den` of two whole numbers, rounded toward zero;
    /// the nearest bound by the sign of `num` where `den` is zero.
    pub fn ratio(num: i64, den: i64) -> (r: Fixed)
        ensures
            r == Fixed::from_int_spec(num).div_spec(Fixed::from_int_spec(den)),
    {
        Fixed::from_int(num) / Fixed::from_int(den)
    }

    /// The whole number `n`.
    pub open spec fn from_int_spec(n: i64) -> Fixed {
        Fixed::of(n * SCALE)
    }

    /// Zero.
    pub fn zero() -> (r: Fixed)
        ensures
            r == Fixed::of(0),
    {
        Fixed { raw: 0 }
    }

    /// One.
    pub fn one() -> (r: Fixed)
        ensures
            r == Fixed::of(SCALE as int),
    {
        Fixed { raw: SCALE }
    }

    /// The greatest number.
    pub fn max_value() -> (r: Fixed)
        ensures
            r == Fixed::of(LIMIT as int),
    {
        Fixed { raw: LIMIT }
    }

    /// The least number.
    pub fn min_value() -> (r: Fixed)
        ensures
            r == Fixed::of(-LIMIT),
    {
        Fixed { raw: -LIMIT }
    }

    /// The count of millionths, within `±LIMIT`.
    pub fn count(self) -> (r: i64)
        ensures
            r == self@,
    {
        if self.raw > LIMIT {
            LIMIT
        } else if self.raw < -LIMIT {
            -LIMIT
        } else {
            self.raw
        }
    }

    /// The number whose count of millionths is `x`, pinned into range.
    pub fn from_wide(x: i128) -> (r: Fixed)
        ensures
            r == Fixed::of(x as int),
    {
        if x > LIMIT as i128 {
            Fixed { raw: LIMIT }
        } else if x < -(LIMIT as i128) {
            Fixed { raw: -LIMIT }
        } else {
            Fixed { raw: x as i64 }
        }
    }

    /// Square root, rounded down; zero for a negative number.
    pub fn sqrt(self) -> (r: Fixed)
        ensures
            r == self.sqrt_spec(),
    {
        let a = self.count();
        if a <= 0 {
            Fixed { raw: 0 }
        } else {
            let s = isqrt_u128(times_scale(a) as u128);
            Fixed::from_wide(s as i128)
        }
    }

    /// Magnitude.
    pub fn abs(self) -> (r: Fixed)
        ensures
            r == self.abs_spec(),
    {
        let a = self.count();
        if a < 0 {
            Fixed { raw: -a }
        } else {
            Fixed { raw: a }
        }
    }

    /// The smaller of two numbers.
    pub fn min(self, other: Fixed) -> (r: Fixed)
        ensures
            r == self.min_spec(other),
    {
        let a = self.count();
        let b = other.count();
        if b < a {
            Fixed { raw: b }
        } else {
            Fixed { raw: a }
        }
    }

    /// The greater of two numbers.
    pub fn max(self, other: Fixed) -> (r: Fixed)
        ensures
            r == self.max_spec(other),
    {
        let a = self.count();
        let b = other.count();
        if b > a {
            Fixed { raw: b }
        } else {
            Fixed { raw: a }
        }
    }

    /// Whole part, rounded toward zero.
    pub fn trunc(self) -> (r: i64)
        ensures
            r == self.trunc_spec(),
    {
        self.count() / SCALE
    }

    /// `self < other`.
    pub fn lt(self, other: Fixed) -> (r: bool)
        ensures
            r == (self@ < other@),
    {
        self.count() < other.count()
    }

    /// `self <= other`.
    pub fn le(self, other: Fixed) -> (r: bool)
        ensures
            r == (self@ <= other@),
    {
        self.count() <= other.count()
    }

    /// `self > other`.
    pub fn gt(self, other: Fixed) -> (r: bool)
        ensures
            r == (self@ > other@),
    {
        self.count() > other.count()
    }

    /// `self >= other`.
    pub fn ge(self, other: Fixed) -> (r: bool)
        ensures
            r == (self@ >= other@),
    {
        self.count() >= other.count()
    }
}

/// Times zero is zero.
pub proof fn lemma_mul_zero(a: Fixed, zero: Fixed)
    requires
        zero@ == 0,
    ensures
        a.mul_spec(zero) == Fixed::of(0),
        zero.mul_spec(a) == Fixed::of(0),
{
    assert(a@ * zero@ == 0 && zero@ * a@ == 0) by (nonlinear_arith)
        requires
            zero@ == 0,
    ;
}

/// Times one is the number itself.
pub proof fn lemma_mul_one(a: Fixed, one: Fixed)
    requires
        one@ == SCALE,
    ensures
        a.mul_spec(one) == Fixed::of(a@),
        one.mul_spec(a) == Fixed::of(a@),
{
    assert(a@ * one@ == a@ * 1_000_000 && one@ * a@ == a@ * 1_000_000) by (nonlinear_arith)
        requires
            one@ == 1_000_000,
    ;
}

/// Negating a factor negates the product.
pub proof fn lemma_mul_neg(a: Fixed, b: Fixed)
    ensures
        a.mul_spec(b.neg_spec()) == a.mul_spec(b).neg_spec(),
        a.neg_spec().mul_spec(b) == a.mul_spec(b).neg_spec(),
{
    assert(a@ * (-b@) == -(a@ * b@) && (-a@) * b@ == -(a@ * b@)) by (nonlinear_arith);
    lemma_tdiv_neg(a@ * b@, SCALE as int);
}

/// Dividing by a number above zero keeps the order of the dividends.
pub proof fn lemma_div_monotonic(a: Fixed, b: Fixed, d: Fixed)
    requires
        a@ <= b@,
        d@ > 0,
    ensures
        a.div_spec(d)@ <= b.div_spec(d)@,
{
    lemma_tdiv_monotonic(a@ * SCALE, b@ * SCALE, d@);
}

impl vstd::std_specs::ops::AddSpecImpl for Fixed {
    open spec fn obeys_add_spec() -> bool {
        true
    }

    open spec fn add_req(self, rhs: Fixed) -> bool {
        true
    }

    open spec fn add_spec(self, rhs: Fixed) -> Fixed {
        Fixed::add_spec(self, rhs)
    }
}

impl Add for Fixed {
    type Output = Fixed;

    fn add(self, rhs: Fixed) -> (r: Fixed) {
        Fixed::from_wide(self.count() as i128 + rhs.count() as i128)
    }
}

impl vstd::std_specs::ops::SubSpecImpl for Fixed {
    open spec fn obeys_sub_spec() -> bool {
        true
    }

    open spec fn sub_req(self, rhs: Fixed) -> bool {
        true
    }

    open spec fn sub_spec(self, rhs: Fixed) -> Fixed {
        Fixed::sub_spec(self, rhs)
    }
}

impl Sub for Fixed {
    type Output = Fixed;

    fn sub(self, rhs: Fixed) -> (r: Fixed) {
        Fixed::from_wide(self.count() as i128 - rhs.count() as i128)
    }
}

impl vstd::std_specs::ops::MulSpecImpl for Fixed {
    open spec fn obeys_mul_spec() -> bool {
        true
    }

    open spec fn mul_req(self, rhs: Fixed) -> bool {
        true
    }

    open spec fn mul_spec(self, rhs: Fixed) -> Fixed {
        Fixed::mul_spec(self, rhs)
    }
}

impl Mul for Fixed {
    type Output = Fixed;

    fn mul(self, rhs: Fixed) -> (r: Fixed) {
        let a = self.count() as i128;
        let b = rhs.count() as i128;
        proof {
            lemma_product_bound(a as int, b as int);
        }
        Fixed::from_wide(quotient(a * b, 1_000_000))
    }
}

impl vstd::std_specs::ops::DivSpecImpl for Fixed {
    open spec fn obeys_div_spec() -> bool {
        true
    }

    open spec fn div_req(self, rhs: Fixed) -> bool {
        true
    }

    open spec fn div_spec(self, rhs: Fixed) -> Fixed {
        Fixed::div_spec(self, rhs)
    }
}

impl Div for Fixed {
    type Output = Fixed;

    fn div(self, rhs: Fixed) -> (r: Fixed) {
        let a = self.count() as i128;
        let b = rhs.count() as i128;
        if b == 0 {
            proof {
                lemma_product_bound(a as int, LIMIT as int);
                assert(a > 0 ==> a * LIMIT >= LIMIT) by (nonlinear_arith)
                    requires
                        LIMIT > 0,
                ;
                assert(a < 0 ==> a * LIMIT <= -LIMIT) by (nonlinear_arith)
                    requires
                        LIMIT > 0,
                ;
            }
            if a > 0 {
                Fixed { raw: LIMIT }
            } else if a < 0 {
                Fixed { raw: -LIMIT }
            } else {
                Fixed { raw: 0 }
            }
        } else {
            Fixed::from_wide(quotient(times_scale(self.count()), b))
        }
    }
}

impl vstd::std_specs::ops::NegSpecImpl for Fixed {
    open spec fn obeys_neg_spec() -> bool {
        true
    }

    open spec fn neg_req(self) -> bool {
        true
    }

    open spec fn neg_spec(self) -> Fixed {
        Fixed::neg_spec(self)
    }
}

impl Neg for Fixed {
    type Output = Fixed;

    fn neg(self) -> (r: Fixed) {
        Fixed { raw: -self.count() }
    }
}

} // verus!
