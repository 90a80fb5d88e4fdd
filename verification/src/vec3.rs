//! Vectors and points of three fixed-point components.
use crate::fixed::{isqrt, isqrt_u128, lemma_product_bound, quotient, sat, tdiv, Fixed, LIMIT, SCALE};
use crate::rng::{random_between, random_fraction};
use std::ops::{Add, AddAssign, Div, Mul, Neg, Sub, SubAssign};
use vstd::prelude::*;

verus! {

/// How often a rejection sampler draws before it settles for the zero vector.
pub const MAX_DRAWS: u32 = 256;

/// A vector of three components.
#[derive(Clone, Copy, Debug, PartialEq, Eq, Structural)]
pub struct Vec3 {
    pub x: Fixed,
    pub y: Fixed,
    pub z: Fixed,
}

/// A position.
pub type Point3 = Vec3;

impl Vec3 {
    /// Sum, component by component.
    pub open spec fn add_spec(self, rhs: Vec3) -> Vec3 {
        Vec3 { x: self.x.add_spec(rhs.x), y: self.y.add_spec(rhs.y), z: self.z.add_spec(rhs.z) }
    }

    /// Difference, component by component.
    pub open spec fn sub_spec(self, rhs: Vec3) -> Vec3 {
        Vec3 { x: self.x.sub_spec(rhs.x), y: self.y.sub_spec(rhs.y), z: self.z.sub_spec(rhs.z) }
    }

    /// Every component times `scalar`.
    pub open spec fn scale_spec(self, scalar: Fixed) -> Vec3 {
        Vec3 { x: self.x.mul_spec(scalar), y: self.y.mul_spec(scalar), z: self.z.mul_spec(scalar) }
    }

    /// Product, component by component.
    pub open spec fn mul_spec(self, rhs: Vec3) -> Vec3 {
        Vec3 { x: self.x.mul_spec(rhs.x), y: self.y.mul_spec(rhs.y), z: self.z.mul_spec(rhs.z) }
    }

    /// Every component divided by `scalar`.
    pub open spec fn div_spec(self, scalar: Fixed) -> Vec3 {
        Vec3 { x: self.x.div_spec(scalar), y: self.y.div_spec(scalar), z: self.z.div_spec(scalar) }
    }

    /// The opposite vector.
    pub open spec fn neg_spec(self) -> Vec3 {
        Vec3 { x: self.x.neg_spec(), y: self.y.neg_spec(), z: self.z.neg_spec() }
    }

    /// Sum of the products of the components, in millionths of millionths: the
    /// dot product before it is rounded.
    pub open spec fn dot_exact(self, rhs: Vec3) -> int {
        self.x@ * rhs.x@ + self.y@ * rhs.y@ + self.z@ * rhs.z@
    }

    /// Dot product, rounded once toward zero.
    pub open spec fn dot_spec(self, rhs: Vec3) -> Fixed {
        Fixed::of(tdiv(self.dot_exact(rhs), SCALE as int))
    }

    /// Cross product, each component rounded once toward zero.
    pub open spec fn cross_spec(self, rhs: Vec3) -> Vec3 {
        Vec3 {
            x: Fixed::of(tdiv(self.y@ * rhs.z@ - self.z@ * rhs.y@, SCALE as int)),
            y: Fixed::of(tdiv(self.z@ * rhs.x@ - self.x@ * rhs.z@, SCALE as int)),
            z: Fixed::of(tdiv(self.x@ * rhs.y@ - self.y@ * rhs.x@, SCALE as int)),
        }
    }

    /// Square of the length.
    pub open spec fn squared_length_spec(self) -> Fixed {
        self.dot_spec(self)
    }

    /// Length, rounded down: the integer square root of the exact sum of squares.
    pub open spec fn length_spec(self) -> Fixed {
        Fixed::of(isqrt(self.dot_exact(self)))
    }

    /// The vector divided by its length; the zero vector stays zero.
    pub open spec fn unit_spec(self) -> Vec3 {
        self.div_spec(self.length_spec())
    }

    /// Every component is closer to zero than one millionth.
    pub open spec fn near_zero_spec(self) -> bool {
        self.x@ == 0 && self.y@ == 0 && self.z@ == 0
    }

    /// Mirror image of the vector in the plane whose normal is `normal`:
    /// `v - (2 (v . n)) n`.
    pub open spec fn reflect_spec(self, normal: Vec3) -> Vec3 {
        self.sub_spec(normal.scale_spec(Fixed::of(2 * SCALE).mul_spec(self.dot_spec(normal))))
    }

    /// Cosine of the angle of incidence, as `refract` takes it: `min(-v . n, 1)`.
    pub open spec fn incidence_cos_spec(self, normal: Vec3) -> Fixed {
        self.neg_spec().dot_spec(normal).min_spec(Fixed::of(SCALE as int))
    }

    /// Part of the refracted direction that lies in the surface.
    pub open spec fn refract_perp_spec(self, normal: Vec3, ratio: Fixed) -> Vec3 {
        self.add_spec(normal.scale_spec(self.incidence_cos_spec(normal))).scale_spec(ratio)
    }

    /// Direction of the vector after it crosses a surface with normal `normal`
    /// into a medium where light is `ratio` times slower or faster (Snell's law on
    /// unit vectors).
    pub open spec fn refract_spec(self, normal: Vec3, ratio: Fixed) -> Vec3 {
        let perp = self.refract_perp_spec(normal, ratio);
        perp.add_spec(normal.scale_spec(self.refract_depth_spec(normal, ratio).neg_spec()))
    }

    /// How far the refracted direction runs against the normal:
    /// `sqrt(|1 - perp . perp|)`.
    pub open spec fn refract_depth_spec(self, normal: Vec3, ratio: Fixed) -> Fixed {
        let perp = self.refract_perp_spec(normal, ratio);
        Fixed::of(SCALE as int).sub_spec(perp.squared_length_spec()).abs_spec().sqrt_spec()
    }

    /// The vector or its opposite, whichever does not point against `normal`.
    pub open spec fn facing_spec(self, normal: Vec3) -> Vec3 {
        if normal.dot_spec(self)@ < 0 {
            self.neg_spec()
        } else {
            self
        }
    }

    /// Every component lies from `lo` (included) to `hi` (excluded), and is in range.
    pub open spec fn within(self, lo: int, hi: int) -> bool {
        &&& lo <= self.x@ < hi
        &&& lo <= self.y@ < hi
        &&& lo <= self.z@ < hi
        &&& self.is_canonical()
    }

    /// The sum of the two vectors is not pinned to a bound in any component.
    pub open spec fn sum_fits(self, rhs: Vec3) -> bool {
        &&& -LIMIT <= self.x@ + rhs.x@ <= LIMIT
        &&& -LIMIT <= self.y@ + rhs.y@ <= LIMIT
        &&& -LIMIT <= self.z@ + rhs.z@ <= LIMIT
    }

    /// No component holds a count beyond the limit.
    pub open spec fn is_canonical(self) -> bool {
        &&& self.x == Fixed::of(self.x@)
        &&& self.y == Fixed::of(self.y@)
        &&& self.z == Fixed::of(self.z@)
    }

    /// The vector lies strictly inside the sphere of radius one about the origin.
    pub open spec fn in_unit_sphere_spec(self) -> bool {
        self.squared_length_spec()@ < SCALE
    }

    /// The vector is what `unit` makes of a vector inside the unit sphere.
    pub open spec fn is_unit_draw(self) -> bool {
        exists|v: Vec3| #[trigger] v.in_unit_sphere_spec() && v.within(-SCALE, SCALE as int) && self == v.unit_spec()
    }

    /// The vector with the given components.
    pub fn new(v1: Fixed, v2: Fixed, v3: Fixed) -> (r: Vec3)
        ensures
            r == (Vec3 { x: v1, y: v2, z: v3 }),
    {
        Vec3 { x: v1, y: v2, z: v3 }
    }

    /// A vector whose components are drawn from zero (included) to one (excluded).
    pub fn random() -> (r: Vec3)
        ensures
            r.within(0, SCALE as int),
    {
        let x = random_fraction();
        let y = random_fraction();
        let z = random_fraction();
        Vec3 { x, y, z }
    }

    /// A vector whose components are drawn from `min` (included) to `max` (excluded).
    pub fn borned_random(min: Fixed, max: Fixed) -> (r: Vec3)
        requires
            min@ < max@,
        ensures
            r.within(min@, max@),
    {
        let x = random_between(min, max);
        let y = random_between(min, max);
        let z = random_between(min, max);
        Vec3 { x, y, z }
    }

    /// Whether the vector lies strictly inside the unit sphere.
    pub fn in_unit_sphere(&self) -> (r: bool)
        ensures
            r == self.in_unit_sphere_spec(),
    {
        self.squared_length().lt(Fixed::one())
    }

    /// A vector inside the unit sphere, by rejection: the first of up to
    /// `MAX_DRAWS` vectors drawn in the cube around it that lies inside; the zero
    /// vector if none does.
    pub fn random_in_unit_sphere() -> (r: Vec3)
        ensures
            r.in_unit_sphere_spec(),
            r.within(-SCALE, SCALE as int),
    {
        let mut n: u32 = 0;
        while n < MAX_DRAWS
            invariant
                n <= MAX_DRAWS,
            decreases MAX_DRAWS - n,
        {
            let v = Vec3::borned_random(Fixed::from_raw(-SCALE), Fixed::from_raw(SCALE));
            if v.in_unit_sphere() {
                return v;
            }
            n = n + 1;
        }
        let zero = Vec3 { x: Fixed::zero(), y: Fixed::zero(), z: Fixed::zero() };
        assert(zero.dot_exact(zero) == 0) by (nonlinear_arith)
            requires
                zero.x@ == 0,
                zero.y@ == 0,
                zero.z@ == 0,
        ;
        zero
    }

    /// A direction: a vector drawn inside the unit sphere, divided by its length.
    pub fn random_unit() -> (r: Vec3)
        ensures
            r.is_unit_draw(),
    {
        let v = Vec3::random_in_unit_sphere();
        v.unit()
    }

    /// The vector or its opposite, whichever does not point against `normal`.
    pub fn facing(self, normal: &Vec3) -> (r: Vec3)
        ensures
            r == self.facing_spec(*normal),
            normal.dot_spec(r)@ >= 0,
    {
        proof {
            lemma_dot_neg(*normal, self);
        }
        if normal.dot(self).lt(Fixed::zero()) {
            self.neg()
        } else {
            self
        }
    }

    /// A direction drawn on the side of the surface that `normal` points to.
    pub fn random_on_hemisphere(normal: &Vec3) -> (r: Vec3)
        ensures
            exists|u: Vec3| #[trigger] u.is_unit_draw() && r == u.facing_spec(*normal),
            normal.dot_spec(r)@ >= 0,
    {
        let on_unit_sphere = Vec3::random_unit();
        on_unit_sphere.facing(normal)
    }

    /// A vector of the plane `z = 0` inside the unit circle, by rejection: the
    /// first of up to `MAX_DRAWS` vectors drawn in the square around it that lies
    /// inside; the zero vector if none does.
    pub fn random_in_unit_disk() -> (r: Vec3)
        ensures
            r.in_unit_sphere_spec(),
            r.within(-SCALE, SCALE as int),
            r.z@ == 0,
    {
        let mut n: u32 = 0;
        while n < MAX_DRAWS
            invariant
                n <= MAX_DRAWS,
            decreases MAX_DRAWS - n,
        {
            let x = random_between(Fixed::from_raw(-SCALE), Fixed::from_raw(SCALE));
            let y = random_between(Fixed::from_raw(-SCALE), Fixed::from_raw(SCALE));
            let v = Vec3 { x, y, z: Fixed::zero() };
            if v.in_unit_sphere() {
                return v;
            }
            n = n + 1;
        }
        let zero = Vec3 { x: Fixed::zero(), y: Fixed::zero(), z: Fixed::zero() };
        assert(zero.dot_exact(zero) == 0) by (nonlinear_arith)
            requires
                zero.x@ == 0,
                zero.y@ == 0,
                zero.z@ == 0,
        ;
        zero
    }

    /// First component.
    pub fn x(&self) -> (r: Fixed)
        ensures
            r == self.x,
    {
        self.x
    }

    /// Second component.
    pub fn y(&self) -> (r: Fixed)
        ensures
            r == self.y,
    {
        self.y
    }

    /// Third component.
    pub fn z(&self) -> (r: Fixed)
        ensures
            r == self.z,
    {
        self.z
    }

    /// Cross product.
    pub fn cross(&self, rhs: Vec3) -> (r: Vec3)
        ensures
            r == self.cross_spec(rhs),
    {
        Vec3 {
            x: minor(self.y, rhs.z, self.z, rhs.y),
            y: minor(self.z, rhs.x, self.x, rhs.z),
            z: minor(self.x, rhs.y, self.y, rhs.x),
        }
    }

    /// Dot product.
    pub fn dot(&self, rhs: Vec3) -> (r: Fixed)
        ensures
            r == self.dot_spec(rhs),
    {
        Fixed::from_wide(quotient(self.wide_dot(rhs), 1_000_000))
    }

    /// The dot product before it is rounded.
    fn wide_dot(&self, rhs: Vec3) -> (r: i128)
        ensures
            r == self.dot_exact(rhs),
            -3 * (LIMIT * LIMIT) <= r <= 3 * (LIMIT * LIMIT),
            LIMIT * LIMIT == 16_000_000_000_000_000_000_000_000_000_000_000_000,
    {
        let ax = self.x.count() as i128;
        let ay = self.y.count() as i128;
        let az = self.z.count() as i128;
        let bx = rhs.x.count() as i128;
        let by = rhs.y.count() as i128;
        let bz = rhs.z.count() as i128;
        proof {
            lemma_product_bound(ax as int, bx as int);
            lemma_product_bound(ay as int, by as int);
            lemma_product_bound(az as int, bz as int);
        }
        ax * bx + ay * by + az * bz
    }

    /// Length.
    pub fn length(&self) -> (r: Fixed)
        ensures
            r == self.length_spec(),
    {
        let s = self.wide_dot(*self);
        assert(s >= 0) by (nonlinear_arith)
            requires
                s == self.x@ * self.x@ + self.y@ * self.y@ + self.z@ * self.z@,
        ;
        let root = isqrt_u128(s as u128);
        Fixed::from_wide(root as i128)
    }

    /// Square of the length.
    pub fn squared_length(&self) -> (r: Fixed)
        ensures
            r == self.squared_length_spec(),
    {
        self.dot(*self)
    }

    /// The vector divided by its length.
    pub fn unit(&self) -> (r: Vec3)
        ensures
            r == self.unit_spec(),
    {
        *self / self.length()
    }

    /// Whether every component is closer to zero than one millionth.
    pub fn near_zero(&self) -> (r: bool)
        ensures
            r == self.near_zero_spec(),
    {
        let eps = Fixed::from_raw(1);
        self.x.abs().lt(eps) && self.y.abs().lt(eps) && self.z.abs().lt(eps)
    }

    /// Mirror image of the vector in the plane whose normal is `normal`.
    pub fn reflect(&self, normal: &Vec3) -> (r: Vec3)
        ensures
            r == self.reflect_spec(*normal),
    {
        *self - *normal * (Fixed::from_int(2) * self.dot(*normal))
    }

    /// Direction of the vector after it crosses a surface with normal `normal`
    /// into a medium where light is `ratio` times slower or faster.
    pub fn refract(&self, normal: &Vec3, ratio: Fixed) -> (r: Vec3)
        ensures
            r == self.refract_spec(*normal, ratio),
    {
        let cos_theta = (*self).neg().dot(*normal).min(Fixed::one());
        let perp = (*self + *normal * cos_theta) * ratio;
        let along = (Fixed::one() - perp.squared_length()).abs().sqrt().neg();
        perp + *normal * along
    }
}

/// Turning one of two vectors about negates their dot product.
pub proof fn lemma_dot_neg(a: Vec3, b: Vec3)
    ensures
        a.neg_spec().dot_spec(b) == a.dot_spec(b).neg_spec(),
        a.dot_spec(b.neg_spec()) == a.dot_spec(b).neg_spec(),
        a.neg_spec().dot_spec(b.neg_spec()) == a.dot_spec(b),
{
    let (ax, ay, az) = (a.x@, a.y@, a.z@);
    let (bx, by, bz) = (b.x@, b.y@, b.z@);
    assert((-ax) * bx + (-ay) * by + (-az) * bz == -(ax * bx + ay * by + az * bz)) by (nonlinear_arith);
    assert(ax * (-bx) + ay * (-by) + az * (-bz) == -(ax * bx + ay * by + az * bz)) by (nonlinear_arith);
    assert((-ax) * (-bx) + (-ay) * (-by) + (-az) * (-bz) == ax * bx + ay * by + az * bz) by (nonlinear_arith);
    crate::fixed::lemma_tdiv_neg(a.dot_exact(b), SCALE as int);
}

/// `(a a) (b b) = (a b) (a b)` and `(a b) (c d) = (a d) (c b)`.
proof fn lemma_regroup(a: int, b: int, c: int, d: int)
    ensures
        (a * a) * (b * b) == (a * b) * (a * b),
        (a * b) * (c * d) == (a * d) * (c * b),
{
    assert((a * a) * (b * b) == (a * b) * (a * b)) by (nonlinear_arith);
    assert((a * b) * (c * d) == (a * d) * (c * b)) by (nonlinear_arith);
}

/// Cauchy and Schwarz: the square of a dot product is at most the product of the
/// squared lengths (all before rounding).
pub proof fn lemma_cauchy_schwarz(a: Vec3, b: Vec3)
    ensures
        a.dot_exact(b) * a.dot_exact(b) <= a.dot_exact(a) * b.dot_exact(b),
{
    let (ax, ay, az) = (a.x@, a.y@, a.z@);
    let (bx, by, bz) = (b.x@, b.y@, b.z@);
    // Squares and products of like components.
    let (a1, a2, a3) = (ax * ax, ay * ay, az * az);
    let (b1, b2, b3) = (bx * bx, by * by, bz * bz);
    let (p, q, r) = (ax * bx, ay * by, az * bz);
    // Products of unlike components.
    let (xy, yx) = (ax * by, ay * bx);
    let (yz, zy) = (ay * bz, az * by);
    let (zx, xz) = (az * bx, ax * bz);
    lemma_regroup(ax, bx, ay, by);
    lemma_regroup(ay, by, az, bz);
    lemma_regroup(az, bz, ax, bx);
    lemma_regroup(ax, by, 0, 0);
    lemma_regroup(ay, bx, 0, 0);
    lemma_regroup(ay, bz, 0, 0);
    lemma_regroup(az, by, 0, 0);
    lemma_regroup(az, bx, 0, 0);
    lemma_regroup(ax, bz, 0, 0);
    assert(a1 * b1 == p * p && a2 * b2 == q * q && a3 * b3 == r * r);
    assert(a1 * b2 == xy * xy && a2 * b1 == yx * yx);
    assert(a2 * b3 == yz * yz && a3 * b2 == zy * zy);
    assert(a3 * b1 == zx * zx && a1 * b3 == xz * xz);
    assert(p * q == xy * yx && q * r == yz * zy && r * p == zx * xz);
    let lengths = (a1 + a2 + a3) * (b1 + b2 + b3);
    assert(lengths == a1 * b1 + a1 * b2 + a1 * b3 + a2 * b1 + a2 * b2 + a2 * b3 + a3 * b1 + a3 * b2 + a3 * b3)
        by (nonlinear_arith)
        requires
            lengths == (a1 + a2 + a3) * (b1 + b2 + b3),
    ;
    let dot = p + q + r;
    assert(dot * dot == p * p + q * q + r * r + 2 * (p * q) + 2 * (q * r) + 2 * (r * p)) by (nonlinear_arith)
        requires
            dot == p + q + r,
    ;
    assert((xy - yx) * (xy - yx) == xy * xy + yx * yx - 2 * (xy * yx)) by (nonlinear_arith);
    assert((yz - zy) * (yz - zy) == yz * yz + zy * zy - 2 * (yz * zy)) by (nonlinear_arith);
    assert((zx - xz) * (zx - xz) == zx * zx + xz * xz - 2 * (zx * xz)) by (nonlinear_arith);
    assert((xy - yx) * (xy - yx) >= 0) by (nonlinear_arith);
    assert((yz - zy) * (yz - zy) >= 0) by (nonlinear_arith);
    assert((zx - xz) * (zx - xz) >= 0) by (nonlinear_arith);
    assert(lengths - dot * dot == (xy - yx) * (xy - yx) + (yz - zy) * (yz - zy) + (zx - xz) * (zx - xz));
}

/// No component of a vector divided by its length is beyond one.
pub proof fn lemma_unit_bounded(v: Vec3)
    ensures
        v.unit_spec().within(-SCALE, SCALE + 1),
{
    let sum = v.dot_exact(v);
    let len = v.length_spec()@;
    assert(v.x@ * v.x@ >= 0 && v.y@ * v.y@ >= 0 && v.z@ * v.z@ >= 0) by (nonlinear_arith);
    crate::fixed::lemma_isqrt(sum, 0);
    lemma_component_bounded(v.x@, sum, len);
    lemma_component_bounded(v.y@, sum, len);
    lemma_component_bounded(v.z@, sum, len);
    assert(0 * LIMIT == 0);
}

/// A number whose square is at most `sum` divides by the root of `sum` to one
/// at most.
proof fn lemma_component_bounded(c: int, sum: int, len: int)
    requires
        -LIMIT <= c <= LIMIT,
        0 <= c * c <= sum,
        len == sat(isqrt(sum)),
    ensures
        len == 0 ==> c == 0,
        len != 0 ==> -SCALE <= tdiv(c * SCALE, len) <= SCALE,
{
    let root = isqrt(sum);
    let m = if c < 0 { -c } else { c };
    crate::fixed::lemma_isqrt(sum, 0);
    assert(m * m == c * c) by (nonlinear_arith)
        requires
            m == c || m == -c,
    ;
    assert((m + 1) * (m + 1) > m * m) by (nonlinear_arith)
        requires
            m >= 0,
    ;
    crate::fixed::lemma_isqrt(m * m, m);
    crate::fixed::lemma_isqrt_monotonic(m * m, sum);
    assert(m <= root);
    assert(m <= len);
    if len != 0 {
        crate::fixed::lemma_tdiv_bounds(c * SCALE, len);
        let q = tdiv(c * SCALE, len);
        assert(-SCALE <= q <= SCALE) by (nonlinear_arith)
            requires
                len > 0,
                -len <= c <= len,
                SCALE > 0,
                c * SCALE >= 0 ==> 0 <= q * len <= c * SCALE,
                c * SCALE <= 0 ==> c * SCALE <= q * len <= 0,
        ;
    }
}

/// A vector that is no longer than `n` does not turn `n` about when it is added
/// to it: the sum has no part against `n`.
pub proof fn lemma_sum_keeps_side(n: Vec3, u: Vec3)
    requires
        u.dot_exact(u) <= n.dot_exact(n),
        n.sum_fits(u),
    ensures
        n.add_spec(u).dot_exact(n) >= 0,
        n.add_spec(u).dot_spec(n)@ >= 0,
{
    let d = n.add_spec(u);
    let nn = n.dot_exact(n);
    let un = u.dot_exact(n);
    let uu = u.dot_exact(u);
    lemma_cauchy_schwarz(u, n);
    assert(d.dot_exact(n) == nn + un) by (nonlinear_arith)
        requires
            d.x@ == n.x@ + u.x@,
            d.y@ == n.y@ + u.y@,
            d.z@ == n.z@ + u.z@,
            d.dot_exact(n) == d.x@ * n.x@ + d.y@ * n.y@ + d.z@ * n.z@,
            nn == n.x@ * n.x@ + n.y@ * n.y@ + n.z@ * n.z@,
            un == u.x@ * n.x@ + u.y@ * n.y@ + u.z@ * n.z@,
    ;
    assert(nn >= 0) by (nonlinear_arith)
        requires
            nn == n.x@ * n.x@ + n.y@ * n.y@ + n.z@ * n.z@,
    ;
    assert(uu >= 0) by (nonlinear_arith)
        requires
            uu == u.x@ * u.x@ + u.y@ * u.y@ + u.z@ * u.z@,
    ;
    assert(nn + un >= 0) by (nonlinear_arith)
        requires
            un * un <= uu * nn,
            0 <= uu <= nn,
    ;
    crate::fixed::lemma_tdiv_bounds(d.dot_exact(n), SCALE as int);
}

/// The zero vector lies inside the unit sphere.
pub proof fn lemma_zero_in_unit_sphere()
    ensures
        (Vec3 { x: Fixed::of(0), y: Fixed::of(0), z: Fixed::of(0) }).in_unit_sphere_spec(),
        (Vec3 { x: Fixed::of(0), y: Fixed::of(0), z: Fixed::of(0) }).within(-SCALE, SCALE as int),
{
    let zero = Vec3 { x: Fixed::of(0), y: Fixed::of(0), z: Fixed::of(0) };
    assert(zero.dot_exact(zero) == 0) by (nonlinear_arith)
        requires
            zero.x@ == 0,
            zero.y@ == 0,
            zero.z@ == 0,
    ;
}

/// The zero vector is among the directions that can be drawn.
pub proof fn lemma_zero_is_unit_draw()
    ensures
        (Vec3 { x: Fixed::of(0), y: Fixed::of(0), z: Fixed::of(0) }).is_unit_draw(),
{
    let zero = Vec3 { x: Fixed::of(0), y: Fixed::of(0), z: Fixed::of(0) };
    assert(zero.dot_exact(zero) == 0) by (nonlinear_arith)
        requires
            zero.x@ == 0,
            zero.y@ == 0,
            zero.z@ == 0,
    ;
    assert(0 * LIMIT == 0);
    assert(zero.in_unit_sphere_spec() && zero.within(-SCALE, SCALE as int) && zero == zero.unit_spec());
}

/// `a * b - c * d`, rounded once toward zero.
fn minor(a: Fixed, b: Fixed, c: Fixed, d: Fixed) -> (r: Fixed)
    ensures
        r == Fixed::of(tdiv(a@ * b@ - c@ * d@, SCALE as int)),
{
    let a = a.count() as i128;
    let b = b.count() as i128;
    let c = c.count() as i128;
    let d = d.count() as i128;
    proof {
        lemma_product_bound(a as int, b as int);
        lemma_product_bound(c as int, d as int);
    }
    Fixed::from_wide(quotient(a * b - c * d, 1_000_000))
}

impl vstd::std_specs::ops::AddSpecImpl for Vec3 {
    open spec fn obeys_add_spec() -> bool {
        true
    }

    open spec fn add_req(self, rhs: Vec3) -> bool {
        true
    }

    open spec fn add_spec(self, rhs: Vec3) -> Vec3 {
        Vec3::add_spec(self, rhs)
    }
}

impl Add for Vec3 {
    type Output = Vec3;

    fn add(self, rhs: Vec3) -> (r: Vec3) {
        Vec3 { x: self.x + rhs.x, y: self.y + rhs.y, z: self.z + rhs.z }
    }
}

impl AddAssign for Vec3 {
    fn add_assign(&mut self, rhs: Vec3)
        ensures
            *final(self) == old(self).add_spec(rhs),
    {
        *self = *self + rhs
    }
}

impl vstd::std_specs::ops::SubSpecImpl for Vec3 {
    open spec fn obeys_sub_spec() -> bool {
        true
    }

    open spec fn sub_req(self, rhs: Vec3) -> bool {
        true
    }

    open spec fn sub_spec(self, rhs: Vec3) -> Vec3 {
        Vec3::sub_spec(self, rhs)
    }
}

impl Sub for Vec3 {
    type Output = Vec3;

    fn sub(self, rhs: Vec3) -> (r: Vec3) {
        Vec3 { x: self.x - rhs.x, y: self.y - rhs.y, z: self.z - rhs.z }
    }
}

impl SubAssign for Vec3 {
    fn sub_assign(&mut self, rhs: Vec3)
        ensures
            *final(self) == old(self).sub_spec(rhs),
    {
        *self = *self - rhs
    }
}

impl vstd::std_specs::ops::MulSpecImpl<Fixed> for Vec3 {
    open spec fn obeys_mul_spec() -> bool {
        true
    }

    open spec fn mul_req(self, scalar: Fixed) -> bool {
        true
    }

    open spec fn mul_spec(self, scalar: Fixed) -> Vec3 {
        self.scale_spec(scalar)
    }
}

impl Mul<Fixed> for Vec3 {
    type Output = Vec3;

    fn mul(self, scalar: Fixed) -> (r: Vec3) {
        Vec3 { x: self.x * scalar, y: self.y * scalar, z: self.z * scalar }
    }
}

impl vstd::std_specs::ops::MulSpecImpl<Vec3> for Fixed {
    open spec fn obeys_mul_spec() -> bool {
        true
    }

    open spec fn mul_req(self, vec: Vec3) -> bool {
        true
    }

    open spec fn mul_spec(self, vec: Vec3) -> Vec3 {
        vec.scale_spec(self)
    }
}

impl Mul<Vec3> for Fixed {
    type Output = Vec3;

    fn mul(self, vec: Vec3) -> (r: Vec3) {
        vec * self
    }
}

impl vstd::std_specs::ops::MulSpecImpl<Vec3> for Vec3 {
    open spec fn obeys_mul_spec() -> bool {
        true
    }

    open spec fn mul_req(self, rhs: Vec3) -> bool {
        true
    }

    open spec fn mul_spec(self, rhs: Vec3) -> Vec3 {
        Vec3::mul_spec(self, rhs)
    }
}

impl Mul<Vec3> for Vec3 {
    type Output = Vec3;

    fn mul(self, rhs: Vec3) -> (r: Vec3) {
        Vec3 { x: self.x * rhs.x, y: self.y * rhs.y, z: self.z * rhs.z }
    }
}

impl vstd::std_specs::ops::DivSpecImpl<Fixed> for Vec3 {
    open spec fn obeys_div_spec() -> bool {
        true
    }

    open spec fn div_req(self, scalar: Fixed) -> bool {
        true
    }

    open spec fn div_spec(self, scalar: Fixed) -> Vec3 {
        Vec3::div_spec(self, scalar)
    }
}

impl Div<Fixed> for Vec3 {
    type Output = Vec3;

    fn div(self, scalar: Fixed) -> (r: Vec3) {
        Vec3 { x: self.x / scalar, y: self.y / scalar, z: self.z / scalar }
    }
}

impl vstd::std_specs::ops::NegSpecImpl for Vec3 {
    open spec fn obeys_neg_spec() -> bool {
        true
    }

    open spec fn neg_req(self) -> bool {
        true
    }

    open spec fn neg_spec(self) -> Vec3 {
        Vec3::neg_spec(self)
    }
}

impl Neg for Vec3 {
    type Output = Vec3;

    fn neg(self) -> (r: Vec3) {
        Vec3 { x: self.x.neg(), y: self.y.neg(), z: self.z.neg() }
    }
}

} // verus!
