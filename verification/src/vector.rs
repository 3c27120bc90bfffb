//! Vectors of fixed-point coordinates and their exact integer models.
use crate::fixed::{
    div_trunc, isqrt, isqrt_ceil, lemma_product_bound, lemma_sqrt_ceil_bounds, magnitude,
    sqrt_ceil, sqrt_floor, trunc_div,
};
use vstd::arithmetic::div_mod::lemma_fundamental_div_mod;
use vstd::prelude::*;

verus! {

/// A vector of three unbounded integers: what a [`Vec3`] stands for.
pub struct V3 {
    pub x: int,
    pub y: int,
    pub z: int,
}

/// A vector of two unbounded integers: what a [`Vec2`] stands for.
pub struct V2 {
    pub x: int,
    pub y: int,
}

impl V3 {
    /// The origin.
    pub open spec fn zero() -> V3 {
        V3 { x: 0, y: 0, z: 0 }
    }

    /// The scalar product.
    pub open spec fn dot(self, other: V3) -> int {
        self.x * other.x + self.y * other.y + self.z * other.z
    }

    /// The squared Euclidean length.
    pub open spec fn norm_sq(self) -> int {
        self.x * self.x + self.y * self.y + self.z * self.z
    }

    /// The componentwise difference.
    pub open spec fn minus(self, other: V3) -> V3 {
        V3 { x: self.x - other.x, y: self.y - other.y, z: self.z - other.z }
    }

    /// Every coordinate lies between `-limit` and `limit`.
    pub open spec fn within(self, limit: int) -> bool {
        &&& -limit <= self.x <= limit
        &&& -limit <= self.y <= limit
        &&& -limit <= self.z <= limit
    }

    /// The vector shortened to length `max` where it is longer, each
    /// coordinate rounded toward zero; unchanged where it is not.
    pub open spec fn clamped(self, max: int) -> V3 {
        if self.norm_sq() <= max * max {
            self
        } else {
            let len = sqrt_ceil(self.norm_sq());
            V3 {
                x: trunc_div(self.x * max, len),
                y: trunc_div(self.y * max, len),
                z: trunc_div(self.z * max, len),
            }
        }
    }

    /// The first two coordinates.
    pub open spec fn truncate(self) -> V2 {
        V2 { x: self.x, y: self.y }
    }
}

impl V2 {
    /// The origin.
    pub open spec fn zero() -> V2 {
        V2 { x: 0, y: 0 }
    }

    /// The squared Euclidean length.
    pub open spec fn norm_sq(self) -> int {
        self.x * self.x + self.y * self.y
    }

    /// The vector in space with third coordinate `z`.
    pub open spec fn extend(self, z: int) -> V3 {
        V3 { x: self.x, y: self.y, z }
    }

    /// The vector shortened to length `max` where it is longer, each
    /// coordinate rounded toward zero; unchanged where it is not.
    pub open spec fn clamped(self, max: int) -> V2 {
        self.extend(0).clamped(max).truncate()
    }
}

/// `r` lies between zero and `c`, both included.
pub open spec fn between_zero_and(r: int, c: int) -> bool {
    (0 <= r <= c) || (c <= r <= 0)
}

/// Rounding a quotient toward zero never lengthens it: the quotient times the
/// divisor stays within the dividend, on the dividend's side of zero.
pub proof fn lemma_trunc_div_bound(n: int, d: int)
    requires
        d > 0,
    ensures
        magnitude(trunc_div(n, d)) * d <= magnitude(n),
        n >= 0 ==> trunc_div(n, d) >= 0,
        n <= 0 ==> trunc_div(n, d) <= 0,
{
    let m = magnitude(n);
    lemma_fundamental_div_mod(m, d);
    assert(0 <= m % d < d);
    assert(d * (m / d) == (m / d) * d) by (nonlinear_arith);
    assert(m / d >= 0) by (nonlinear_arith)
        requires
            m >= 0,
            d > 0,
            m == d * (m / d) + m % d,
            m % d < d,
    ;
}

/// A product of two bounded factors, divided by more than the second, stays
/// within the first.
proof fn lemma_scaled_coordinate(c: int, max: int, len: int)
    requires
        0 <= max < len,
    ensures
        magnitude(trunc_div(c * max, len)) <= magnitude(c),
        magnitude(trunc_div(c * max, len)) * len <= magnitude(c) * max,
        c >= 0 ==> trunc_div(c * max, len) >= 0,
        c <= 0 ==> trunc_div(c * max, len) <= 0,
{
    lemma_trunc_div_bound(c * max, len);
    assert(c >= 0 ==> c * max >= 0) by (nonlinear_arith)
        requires
            0 <= max,
    ;
    assert(c <= 0 ==> c * max <= 0) by (nonlinear_arith)
        requires
            0 <= max,
    ;
    let q = magnitude(trunc_div(c * max, len));
    assert(magnitude(c * max) == magnitude(c) * max) by (nonlinear_arith)
        requires
            0 <= max,
    ;
    assert(q <= magnitude(c)) by (nonlinear_arith)
        requires
            q * len <= magnitude(c) * max,
            0 <= max < len,
            0 <= q,
            0 <= magnitude(c),
    ;
}

/// Squares keep the order of non-negative products.
proof fn lemma_square_of_products(q: int, len: int, c: int, max: int)
    requires
        0 <= q,
        0 <= len,
        q * len <= magnitude(c) * max,
    ensures
        (q * q) * (len * len) <= (c * c) * (max * max),
{
    let a = q * len;
    let b = magnitude(c) * max;
    assert(0 <= a) by (nonlinear_arith)
        requires
            a == q * len,
            0 <= q,
            0 <= len,
    ;
    assert(a * a <= b * b) by (nonlinear_arith)
        requires
            0 <= a <= b,
    ;
    assert(a * a == (q * q) * (len * len)) by (nonlinear_arith)
        requires
            a == q * len,
    ;
    assert(magnitude(c) * magnitude(c) == c * c) by (nonlinear_arith);
    assert(b * b == (c * c) * (max * max)) by (nonlinear_arith)
        requires
            b == magnitude(c) * max,
            magnitude(c) * magnitude(c) == c * c,
    ;
}

/// A clamped vector is never longer than the bound, and none of its
/// coordinates grows or changes sign.
pub proof fn lemma_clamped_length(v: V3, max: int)
    requires
        0 <= max,
    ensures
        v.clamped(max).norm_sq() <= max * max,
        between_zero_and(v.clamped(max).x, v.x),
        between_zero_and(v.clamped(max).y, v.y),
        between_zero_and(v.clamped(max).z, v.z),
{
    let n = v.norm_sq();
    assert(0 <= n) by (nonlinear_arith)
        requires
            n == v.x * v.x + v.y * v.y + v.z * v.z,
    ;
    assert(0 <= max * max) by (nonlinear_arith);
    if n > max * max {
        let len = sqrt_ceil(n);
        lemma_sqrt_ceil_bounds(n);
        assert(max < len) by (nonlinear_arith)
            requires
                0 <= max,
                0 <= len,
                max * max < n,
                n <= len * len,
        ;
        let r = v.clamped(max);
        lemma_scaled_coordinate(v.x, max, len);
        lemma_scaled_coordinate(v.y, max, len);
        lemma_scaled_coordinate(v.z, max, len);
        lemma_square_of_products(magnitude(r.x), len, v.x, max);
        lemma_square_of_products(magnitude(r.y), len, v.y, max);
        lemma_square_of_products(magnitude(r.z), len, v.z, max);
        assert(magnitude(r.x) * magnitude(r.x) == r.x * r.x) by (nonlinear_arith);
        assert(magnitude(r.y) * magnitude(r.y) == r.y * r.y) by (nonlinear_arith);
        assert(magnitude(r.z) * magnitude(r.z) == r.z * r.z) by (nonlinear_arith);
        let ll = len * len;
        let mm = max * max;
        assert(r.norm_sq() * ll <= n * mm) by (nonlinear_arith)
            requires
                (r.x * r.x) * ll <= (v.x * v.x) * mm,
                (r.y * r.y) * ll <= (v.y * v.y) * mm,
                (r.z * r.z) * ll <= (v.z * v.z) * mm,
                r.norm_sq() == r.x * r.x + r.y * r.y + r.z * r.z,
                n == v.x * v.x + v.y * v.y + v.z * v.z,
        ;
        assert(r.norm_sq() <= mm) by (nonlinear_arith)
            requires
                r.norm_sq() * ll <= n * mm,
                0 < n <= ll,
                0 <= mm,
        ;
    }
}

/// A vector in space, in fixed-point coordinates.
#[derive(Clone, Copy, Debug, PartialEq, Eq, Structural)]
pub struct Vec3 {
    pub x: i64,
    pub y: i64,
    pub z: i64,
}

/// A vector in the plane, in fixed-point coordinates.
#[derive(Clone, Copy, Debug, PartialEq, Eq, Structural)]
pub struct Vec2 {
    pub x: i64,
    pub y: i64,
}

impl View for Vec3 {
    type V = V3;

    open spec fn view(&self) -> V3 {
        V3 { x: self.x as int, y: self.y as int, z: self.z as int }
    }
}

impl View for Vec2 {
    type V = V2;

    open spec fn view(&self) -> V2 {
        V2 { x: self.x as int, y: self.y as int }
    }
}

impl Vec3 {
    /// The origin.
    pub fn zero() -> (r: Vec3)
        ensures
            r@ == V3::zero(),
    {
        Vec3 { x: 0, y: 0, z: 0 }
    }

    /// The vector with the given coordinates.
    pub fn new(x: i64, y: i64, z: i64) -> (r: Vec3)
        ensures
            r@ == (V3 { x: x as int, y: y as int, z: z as int }),
    {
        Vec3 { x, y, z }
    }

    /// The difference `self - other`.
    pub fn minus(self, other: Vec3) -> (r: Vec3)
        requires
            self@.within(i64::MAX / 2),
            other@.within(i64::MAX / 2),
        ensures
            r@ == self@.minus(other@),
    {
        Vec3 { x: self.x - other.x, y: self.y - other.y, z: self.z - other.z }
    }

    /// The scalar product with `other`.
    pub fn dot(self, other: Vec3) -> (r: i128)
        requires
            self@.within(0x4000_0000_0000_0000),
            other@.within(0x4000_0000_0000_0000),
        ensures
            r == self@.dot(other@),
    {
        let ax: i128 = self.x as i128;
        let ay: i128 = self.y as i128;
        let az: i128 = self.z as i128;
        let bx: i128 = other.x as i128;
        let by: i128 = other.y as i128;
        let bz: i128 = other.z as i128;
        proof {
            lemma_product_bound(ax as int, bx as int, 0x4000_0000_0000_0000, 0x4000_0000_0000_0000);
            lemma_product_bound(ay as int, by as int, 0x4000_0000_0000_0000, 0x4000_0000_0000_0000);
            lemma_product_bound(az as int, bz as int, 0x4000_0000_0000_0000, 0x4000_0000_0000_0000);
        }
        ax * bx + ay * by + az * bz
    }

    /// The squared length.
    pub fn length_squared(self) -> (r: u128)
        ensures
            r == self@.norm_sq(),
    {
        let x: u128 = square(self.x);
        let y: u128 = square(self.y);
        let z: u128 = square(self.z);
        x + y + z
    }

    /// The length, rounded down.
    pub fn length(self) -> (r: u64)
        ensures
            r == sqrt_floor(self@.norm_sq()),
    {
        isqrt(self.length_squared())
    }

    /// The first two coordinates.
    pub fn truncate(self) -> (r: Vec2)
        ensures
            r@ == self@.truncate(),
    {
        Vec2 { x: self.x, y: self.y }
    }

    /// The vector shortened to length `max` where it is longer.
    ///
    /// A vector no longer than `max` comes back unchanged. A longer one is
    /// scaled by `max` over its length; the length is rounded up and each
    /// coordinate toward zero, so the result never exceeds `max`.
    pub fn clamp_length_max(self, max: i64) -> (r: Vec3)
        requires
            0 <= max,
        ensures
            r@ == self@.clamped(max as int),
            r@.norm_sq() <= max * max,
            self@ == V3::zero() ==> r@ == V3::zero(),
    {
        proof {
            lemma_clamped_length(self@, max as int);
        }
        let n: u128 = self.length_squared();
        let m: u128 = max as u128;
        assert(m * m <= 0x4000_0000_0000_0000_0000_0000_0000_0000) by (nonlinear_arith)
            requires
                m <= 0x8000_0000_0000_0000,
        ;
        if n <= m * m {
            return self;
        }
        let len: i128 = isqrt_ceil(n) as i128;
        let wide: i128 = max as i128;
        proof {
            lemma_sqrt_ceil_bounds(n as int);
            lemma_product_bound(self.x as int, wide as int, 0x8000_0000_0000_0000, 0x8000_0000_0000_0000);
            lemma_product_bound(self.y as int, wide as int, 0x8000_0000_0000_0000, 0x8000_0000_0000_0000);
            lemma_product_bound(self.z as int, wide as int, 0x8000_0000_0000_0000, 0x8000_0000_0000_0000);
        }
        let x: i128 = div_trunc(self.x as i128 * wide, len);
        let y: i128 = div_trunc(self.y as i128 * wide, len);
        let z: i128 = div_trunc(self.z as i128 * wide, len);
        Vec3 { x: x as i64, y: y as i64, z: z as i64 }
    }
}

impl Vec2 {
    /// The origin.
    pub fn zero() -> (r: Vec2)
        ensures
            r@ == V2::zero(),
    {
        Vec2 { x: 0, y: 0 }
    }

    /// The vector with the given coordinates.
    pub fn new(x: i64, y: i64) -> (r: Vec2)
        ensures
            r@ == (V2 { x: x as int, y: y as int }),
    {
        Vec2 { x, y }
    }

    /// The vector in space with third coordinate `z`.
    pub fn extend(self, z: i64) -> (r: Vec3)
        ensures
            r@ == self@.extend(z as int),
    {
        Vec3 { x: self.x, y: self.y, z }
    }

    /// The squared length.
    pub fn length_squared(self) -> (r: u128)
        ensures
            r == self@.norm_sq(),
    {
        let x: u128 = square(self.x);
        let y: u128 = square(self.y);
        x + y
    }

    /// The length, rounded down.
    pub fn length(self) -> (r: u64)
        ensures
            r == sqrt_floor(self@.norm_sq()),
    {
        isqrt(self.length_squared())
    }

    /// The vector shortened to length `max` where it is longer, as
    /// [`Vec3::clamp_length_max`] does it.
    pub fn clamp_length_max(self, max: i64) -> (r: Vec2)
        requires
            0 <= max,
        ensures
            r@ == self@.clamped(max as int),
            r@.norm_sq() <= max * max,
            self@ == V2::zero() ==> r@ == V2::zero(),
    {
        let r = self.extend(0).clamp_length_max(max).truncate();
        proof {
            let full = self@.extend(0).clamped(max as int);
            lemma_clamped_length(self@.extend(0), max as int);
            assert(full.z == 0);
            assert(full.norm_sq() == r@.norm_sq());
        }
        r
    }
}

/// The square of a coordinate.
fn square(c: i64) -> (r: u128)
    ensures
        r == c * c,
        r <= 0x4000_0000_0000_0000_0000_0000_0000_0000,
{
    let wide: i128 = c as i128;
    proof {
        lemma_product_bound(wide as int, wide as int, 0x8000_0000_0000_0000, 0x8000_0000_0000_0000);
        assert(wide * wide >= 0) by (nonlinear_arith);
    }
    (wide * wide) as u128
}

} // verus!
