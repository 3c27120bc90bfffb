//! Orientations as quaternions of free length, and the rotation of vectors.
use crate::fixed::{div_round, lemma_product_bound, lemma_round_div_bound, round_div};
use crate::vector::{Vec3, V3};
use vstd::prelude::*;

verus! {

/// A quaternion of four unbounded integers: what a [`Quat`] stands for.
pub struct Q4 {
    pub x: int,
    pub y: int,
    pub z: int,
    pub w: int,
}

impl Q4 {
    /// The squared length.
    pub open spec fn norm_sq(self) -> int {
        self.w * self.w + self.x * self.x + self.y * self.y + self.z * self.z
    }

    /// The conjugate, which turns the other way.
    pub open spec fn conjugate(self) -> Q4 {
        Q4 { x: -self.x, y: -self.y, z: -self.z, w: self.w }
    }

    /// Row 0, column 0 of the matrix of the rotation, times the squared
    /// length.
    pub open spec fn m00(self) -> int {
        self.w * self.w + self.x * self.x - self.y * self.y - self.z * self.z
    }

    /// Row 0, column 1 of the matrix of the rotation, times the squared
    /// length.
    pub open spec fn m01(self) -> int {
        2 * (self.x * self.y - self.w * self.z)
    }

    /// Row 0, column 2 of the matrix of the rotation, times the squared
    /// length.
    pub open spec fn m02(self) -> int {
        2 * (self.x * self.z + self.w * self.y)
    }

    /// Row 1, column 0 of the matrix of the rotation, times the squared
    /// length.
    pub open spec fn m10(self) -> int {
        2 * (self.x * self.y + self.w * self.z)
    }

    /// Row 1, column 1 of the matrix of the rotation, times the squared
    /// length.
    pub open spec fn m11(self) -> int {
        self.w * self.w - self.x * self.x + self.y * self.y - self.z * self.z
    }

    /// Row 1, column 2 of the matrix of the rotation, times the squared
    /// length.
    pub open spec fn m12(self) -> int {
        2 * (self.y * self.z - self.w * self.x)
    }

    /// Row 2, column 0 of the matrix of the rotation, times the squared
    /// length.
    pub open spec fn m20(self) -> int {
        2 * (self.x * self.z - self.w * self.y)
    }

    /// Row 2, column 1 of the matrix of the rotation, times the squared
    /// length.
    pub open spec fn m21(self) -> int {
        2 * (self.y * self.z + self.w * self.x)
    }

    /// Row 2, column 2 of the matrix of the rotation, times the squared
    /// length.
    pub open spec fn m22(self) -> int {
        self.w * self.w - self.x * self.x - self.y * self.y + self.z * self.z
    }

    /// The rotated vector times the squared length of the quaternion: the
    /// product `q v q*`, which is exact in integers.
    pub open spec fn rotate_num(self, v: V3) -> V3 {
        V3 {
            x: self.m00() * v.x + self.m01() * v.y + self.m02() * v.z,
            y: self.m10() * v.x + self.m11() * v.y + self.m12() * v.z,
            z: self.m20() * v.x + self.m21() * v.y + self.m22() * v.z,
        }
    }

    /// The rotated vector, each coordinate rounded to the nearest integer.
    pub open spec fn rotated(self, v: V3) -> V3 {
        V3 {
            x: round_div(self.rotate_num(v).x, self.norm_sq()),
            y: round_div(self.rotate_num(v).y, self.norm_sq()),
            z: round_div(self.rotate_num(v).z, self.norm_sq()),
        }
    }
}

/// The matrix of the conjugate is the transpose.
pub proof fn lemma_conjugate_transposes(q: Q4)
    ensures
        q.conjugate().norm_sq() == q.norm_sq(),
        q.conjugate().m00() == q.m00(),
        q.conjugate().m11() == q.m11(),
        q.conjugate().m22() == q.m22(),
        q.conjugate().m01() == q.m10(),
        q.conjugate().m10() == q.m01(),
        q.conjugate().m02() == q.m20(),
        q.conjugate().m20() == q.m02(),
        q.conjugate().m12() == q.m21(),
        q.conjugate().m21() == q.m12(),
{
    let c = q.conjugate();
    assert(c.x * c.x == q.x * q.x) by (nonlinear_arith)
        requires
            c.x == -q.x,
    ;
    assert(c.y * c.y == q.y * q.y) by (nonlinear_arith)
        requires
            c.y == -q.y,
    ;
    assert(c.z * c.z == q.z * q.z) by (nonlinear_arith)
        requires
            c.z == -q.z,
    ;
    assert(c.x * c.y == q.x * q.y) by (nonlinear_arith)
        requires
            c.x == -q.x,
            c.y == -q.y,
    ;
    assert(c.x * c.z == q.x * q.z) by (nonlinear_arith)
        requires
            c.x == -q.x,
            c.z == -q.z,
    ;
    assert(c.y * c.z == q.y * q.z) by (nonlinear_arith)
        requires
            c.y == -q.y,
            c.z == -q.z,
    ;
    assert(c.w * c.x == -(q.w * q.x)) by (nonlinear_arith)
        requires
            c.x == -q.x,
            c.w == q.w,
    ;
    assert(c.w * c.y == -(q.w * q.y)) by (nonlinear_arith)
        requires
            c.y == -q.y,
            c.w == q.w,
    ;
    assert(c.w * c.z == -(q.w * q.z)) by (nonlinear_arith)
        requires
            c.z == -q.z,
            c.w == q.w,
    ;
}

/// Twice a product never exceeds the sum of the two squares.
proof fn lemma_double_product(x: int, y: int)
    ensures
        -(x * x + y * y) <= 2 * (x * y) <= x * x + y * y,
        0 <= x * x,
        0 <= y * y,
{
    assert(-(x * x + y * y) <= 2 * (x * y) <= x * x + y * y) by (nonlinear_arith);
    assert(0 <= x * x) by (nonlinear_arith);
    assert(0 <= y * y) by (nonlinear_arith);
}

/// No entry of the matrix exceeds the squared length of the quaternion.
pub proof fn lemma_matrix_entries_bounded(q: Q4)
    ensures
        0 <= q.norm_sq(),
        -q.norm_sq() <= q.m00() <= q.norm_sq(),
        -q.norm_sq() <= q.m01() <= q.norm_sq(),
        -q.norm_sq() <= q.m02() <= q.norm_sq(),
        -q.norm_sq() <= q.m10() <= q.norm_sq(),
        -q.norm_sq() <= q.m11() <= q.norm_sq(),
        -q.norm_sq() <= q.m12() <= q.norm_sq(),
        -q.norm_sq() <= q.m20() <= q.norm_sq(),
        -q.norm_sq() <= q.m21() <= q.norm_sq(),
        -q.norm_sq() <= q.m22() <= q.norm_sq(),
{
    lemma_double_product(q.x, q.y);
    lemma_double_product(q.w, q.z);
    lemma_double_product(q.x, q.z);
    lemma_double_product(q.w, q.y);
    lemma_double_product(q.y, q.z);
    lemma_double_product(q.w, q.x);
}

/// A rotated vector stays within three times the bound of the vector.
pub proof fn lemma_rotated_within(q: Q4, v: V3, b: int)
    requires
        0 < q.norm_sq(),
        0 <= b,
        v.within(b),
    ensures
        q.rotate_num(v).within(3 * (b * q.norm_sq())),
        q.rotated(v).within(3 * b),
{
    let d = q.norm_sq();
    lemma_matrix_entries_bounded(q);
    lemma_product_bound(q.m00(), v.x, d, b);
    lemma_product_bound(q.m01(), v.y, d, b);
    lemma_product_bound(q.m02(), v.z, d, b);
    lemma_product_bound(q.m10(), v.x, d, b);
    lemma_product_bound(q.m11(), v.y, d, b);
    lemma_product_bound(q.m12(), v.z, d, b);
    lemma_product_bound(q.m20(), v.x, d, b);
    lemma_product_bound(q.m21(), v.y, d, b);
    lemma_product_bound(q.m22(), v.z, d, b);
    assert(d * b == b * d) by (nonlinear_arith);
    assert((3 * b) * d == 3 * (b * d)) by (nonlinear_arith);
    lemma_round_div_bound(q.rotate_num(v).x, d, 3 * b);
    lemma_round_div_bound(q.rotate_num(v).y, d, 3 * b);
    lemma_round_div_bound(q.rotate_num(v).z, d, 3 * b);
}

/// The zero vector stays at the origin under every rotation.
pub proof fn lemma_rotated_zero(q: Q4)
    requires
        0 < q.norm_sq(),
    ensures
        q.rotated(V3::zero()) == V3::zero(),
{
    lemma_rotated_within(q, V3::zero(), 0);
}

/// The largest coordinate of a quaternion: the fixed-point `1.0`.
pub const QUAT_ONE: i32 = 0x4000_0000;

/// The largest coordinate of a vector that can be rotated.
pub const ROTATE_LIMIT: i64 = 0x1000_0000_0000_0000;

/// An orientation: a quaternion in fixed-point coordinates.
///
/// Only its direction matters. A quaternion of any length but zero turns
/// vectors as the unit quaternion of the same direction does.
#[derive(Clone, Copy, Debug, PartialEq, Eq, Structural)]
pub struct Quat {
    pub x: i32,
    pub y: i32,
    pub z: i32,
    pub w: i32,
}

impl View for Quat {
    type V = Q4;

    open spec fn view(&self) -> Q4 {
        Q4 { x: self.x as int, y: self.y as int, z: self.z as int, w: self.w as int }
    }
}

impl Quat {
    /// The quaternion is not zero and no coordinate exceeds [`QUAT_ONE`].
    pub open spec fn wf(self) -> bool {
        &&& -QUAT_ONE <= self.x <= QUAT_ONE
        &&& -QUAT_ONE <= self.y <= QUAT_ONE
        &&& -QUAT_ONE <= self.z <= QUAT_ONE
        &&& -QUAT_ONE <= self.w <= QUAT_ONE
        &&& (self.x != 0 || self.y != 0 || self.z != 0 || self.w != 0)
    }

    /// A well-formed quaternion has a positive squared length.
    pub proof fn lemma_wf_norm(self)
        requires
            self.wf(),
        ensures
            0 < self@.norm_sq() <= 0x4000_0000_0000_0000,
    {
        let q = self@;
        lemma_product_bound(q.x, q.x, QUAT_ONE as int, QUAT_ONE as int);
        lemma_product_bound(q.y, q.y, QUAT_ONE as int, QUAT_ONE as int);
        lemma_product_bound(q.z, q.z, QUAT_ONE as int, QUAT_ONE as int);
        lemma_product_bound(q.w, q.w, QUAT_ONE as int, QUAT_ONE as int);
        assert(q.x != 0 ==> q.x * q.x > 0) by (nonlinear_arith);
        assert(q.y != 0 ==> q.y * q.y > 0) by (nonlinear_arith);
        assert(q.z != 0 ==> q.z * q.z > 0) by (nonlinear_arith);
        assert(q.w != 0 ==> q.w * q.w > 0) by (nonlinear_arith);
        lemma_double_product(q.x, q.y);
        lemma_double_product(q.z, q.w);
    }

    /// The orientation that turns nothing.
    pub fn identity() -> (r: Quat)
        ensures
            r.wf(),
            r@ == (Q4 { x: 0, y: 0, z: 0, w: QUAT_ONE as int }),
    {
        Quat { x: 0, y: 0, z: 0, w: QUAT_ONE }
    }

    /// The quaternion with the given coordinates, where they make an
    /// orientation.
    pub fn new(x: i32, y: i32, z: i32, w: i32) -> (r: Option<Quat>)
        ensures
            r.is_some() <==> (Quat { x, y, z, w }).wf(),
            r.is_some() ==> r.unwrap() == (Quat { x, y, z, w }),
    {
        let q = Quat { x, y, z, w };
        let fits = -QUAT_ONE <= x && x <= QUAT_ONE && -QUAT_ONE <= y && y <= QUAT_ONE && -QUAT_ONE
            <= z && z <= QUAT_ONE && -QUAT_ONE <= w && w <= QUAT_ONE;
        if fits && (x != 0 || y != 0 || z != 0 || w != 0) {
            Some(q)
        } else {
            None
        }
    }

    /// The opposite orientation.
    pub fn inverse(self) -> (r: Quat)
        requires
            self.wf(),
        ensures
            r.wf(),
            r@ == self@.conjugate(),
    {
        Quat { x: -self.x, y: -self.y, z: -self.z, w: self.w }
    }

    /// The vector `v` turned by this orientation, each coordinate rounded to
    /// the nearest step.
    pub fn rotate(self, v: Vec3) -> (r: Vec3)
        requires
            self.wf(),
            v@.within(ROTATE_LIMIT as int),
        ensures
            r@ == self@.rotated(v@),
            v@ == V3::zero() ==> r@ == V3::zero(),
    {
        let w: i128 = self.w as i128;
        let x: i128 = self.x as i128;
        let y: i128 = self.y as i128;
        let z: i128 = self.z as i128;
        let ghost one: int = QUAT_ONE as int;
        let ghost limit: int = ROTATE_LIMIT as int;
        proof {
            self.lemma_wf_norm();
            lemma_matrix_entries_bounded(self@);
            lemma_rotated_within(self@, v@, limit);
            lemma_rotated_zero(self@);
            lemma_product_bound(w as int, w as int, one, one);
            lemma_product_bound(x as int, x as int, one, one);
            lemma_product_bound(y as int, y as int, one, one);
            lemma_product_bound(z as int, z as int, one, one);
            lemma_product_bound(x as int, y as int, one, one);
            lemma_product_bound(x as int, z as int, one, one);
            lemma_product_bound(y as int, z as int, one, one);
            lemma_product_bound(w as int, x as int, one, one);
            lemma_product_bound(w as int, y as int, one, one);
            lemma_product_bound(w as int, z as int, one, one);
        }
        let ww: i128 = w * w;
        let xx: i128 = x * x;
        let yy: i128 = y * y;
        let zz: i128 = z * z;
        let xy: i128 = x * y;
        let xz: i128 = x * z;
        let yz: i128 = y * z;
        let wx: i128 = w * x;
        let wy: i128 = w * y;
        let wz: i128 = w * z;
        let d: i128 = ww + xx + yy + zz;
        let m00: i128 = ww + xx - yy - zz;
        let m01: i128 = 2 * (xy - wz);
        let m02: i128 = 2 * (xz + wy);
        let m10: i128 = 2 * (xy + wz);
        let m11: i128 = ww - xx + yy - zz;
        let m12: i128 = 2 * (yz - wx);
        let m20: i128 = 2 * (xz - wy);
        let m21: i128 = 2 * (yz + wx);
        let m22: i128 = ww - xx - yy + zz;
        let vx: i128 = v.x as i128;
        let vy: i128 = v.y as i128;
        let vz: i128 = v.z as i128;
        proof {
            let dd = d as int;
            lemma_product_bound(m00 as int, vx as int, dd, limit);
            lemma_product_bound(m01 as int, vy as int, dd, limit);
            lemma_product_bound(m02 as int, vz as int, dd, limit);
            lemma_product_bound(m10 as int, vx as int, dd, limit);
            lemma_product_bound(m11 as int, vy as int, dd, limit);
            lemma_product_bound(m12 as int, vz as int, dd, limit);
            lemma_product_bound(m20 as int, vx as int, dd, limit);
            lemma_product_bound(m21 as int, vy as int, dd, limit);
            lemma_product_bound(m22 as int, vz as int, dd, limit);
        }
        let nx: i128 = m00 * vx + m01 * vy + m02 * vz;
        let ny: i128 = m10 * vx + m11 * vy + m12 * vz;
        let nz: i128 = m20 * vx + m21 * vy + m22 * vz;
        let rx: i128 = div_round(nx, d);
        let ry: i128 = div_round(ny, d);
        let rz: i128 = div_round(nz, d);
        Vec3 { x: rx as i64, y: ry as i64, z: rz as i64 }
    }
}

} // verus!
