//! Laws of rotation: turning a vector and turning it back.
use crate::fixed::{
    lemma_product_bound, lemma_round_div_between, lemma_round_div_error, lemma_round_div_exact,
    magnitude, round_div,
};
use crate::rotation::{lemma_conjugate_transposes, Q4};
use crate::vector::V3;
use vstd::prelude::*;

verus! {

proof fn lemma_expand(a: int, b: int, c: int, d: int)
    by (nonlinear_arith)
    ensures
        (a + b) * (c + d) == a * c + a * d + b * c + b * d,
        (a - b) * (c + d) == a * c + a * d - b * c - b * d,
        (a + b) * (c - d) == a * c - a * d + b * c - b * d,
        (a - b) * (c - d) == a * c - a * d - b * c + b * d,
{
}

proof fn lemma_scale(a: int, b: int)
    by (nonlinear_arith)
    ensures
        a * (2 * b) == 2 * (a * b),
        (2 * a) * b == 2 * (a * b),
        (2 * a) * (2 * b) == 4 * (a * b),
        a * b == b * a,
        (-a) * b == -(a * b),
        a * (-b) == -(a * b),
{
}

proof fn lemma_same_product(a: int, a2: int, b: int, b2: int)
    requires
        a == a2,
        b == b2,
    ensures
        a * b == a2 * b2,
{
}

/// Two columns of a matrix of this shape are orthogonal.
proof fn lemma_column_product(x: int, y: int, p: int, r: int, s: int, t: int, u: int, v: int)
    requires
        (s - t) * (u + v) == y * r - x * p,
    ensures
        (x + y) * (2 * (p - r)) + (2 * (p + r)) * (x - y) + (2 * (s - t)) * (2 * (u + v)) == 0,
{
    lemma_scale(x + y, p - r);
    lemma_scale(p + r, x - y);
    lemma_scale(s - t, u + v);
    lemma_expand(x, y, p, r);
    lemma_expand(p, r, x, y);
    lemma_scale(x, p);
    lemma_scale(x, r);
    lemma_scale(y, p);
    lemma_scale(y, r);
}

/// A column of a matrix of this shape is as long as the sum of the four
/// squares.
proof fn lemma_column_square(a: int, b: int, c: int, d: int, p: int, r: int, s: int, t: int)
    requires
        p * p == b * c,
        r * r == a * d,
        s * s == b * d,
        t * t == a * c,
        p * r == s * t,
    ensures
        (a + b - c - d) * (a + b - c - d) + (2 * (p + r)) * (2 * (p + r)) + (2 * (s - t)) * (2 * (s
            - t)) == (a + b + c + d) * (a + b + c + d),
{
    let x = a + b;
    let y = c + d;
    lemma_expand(x, y, x, y);
    lemma_scale(x, y);
    lemma_same_product(a + b - c - d, x - y, a + b - c - d, x - y);
    lemma_same_product(a + b + c + d, x + y, a + b + c + d, x + y);
    lemma_scale(p + r, p + r);
    lemma_scale(s - t, s - t);
    lemma_expand(p, r, p, r);
    lemma_expand(s, t, s, t);
    lemma_scale(p, r);
    lemma_scale(s, t);
    lemma_expand(a, b, c, d);
}

/// How the products of two coordinates of a quaternion multiply: a product of
/// four coordinates can be grouped in pairs freely.
spec fn pairs_agree(w: int, x: int, y: int, z: int) -> bool {
    let a = w * w;
    let b = x * x;
    let c = y * y;
    let d = z * z;
    let p = x * y;
    let r = w * z;
    let s = x * z;
    let t = w * y;
    let u = y * z;
    let v = w * x;
    &&& p * p == b * c
    &&& r * r == a * d
    &&& s * s == b * d
    &&& t * t == a * c
    &&& u * u == c * d
    &&& v * v == a * b
    &&& p * r == s * t
    &&& p * r == u * v
    &&& s * u == d * p
    &&& s * v == b * r
    &&& t * u == c * r
    &&& t * v == a * p
    &&& p * u == c * s
    &&& p * v == b * t
    &&& r * u == d * t
    &&& r * v == a * s
    &&& p * s == b * u
    &&& p * t == c * v
    &&& r * s == d * v
    &&& r * t == a * u
}

proof fn lemma_pairs_agree(w: int, x: int, y: int, z: int)
    ensures
        pairs_agree(w, x, y, z),
{
    assert((x * y) * (x * y) == (x * x) * (y * y)) by (nonlinear_arith);
    assert((w * z) * (w * z) == (w * w) * (z * z)) by (nonlinear_arith);
    assert((x * z) * (x * z) == (x * x) * (z * z)) by (nonlinear_arith);
    assert((w * y) * (w * y) == (w * w) * (y * y)) by (nonlinear_arith);
    assert((y * z) * (y * z) == (y * y) * (z * z)) by (nonlinear_arith);
    assert((w * x) * (w * x) == (w * w) * (x * x)) by (nonlinear_arith);
    assert((x * y) * (w * z) == (x * z) * (w * y)) by (nonlinear_arith);
    assert((x * y) * (w * z) == (y * z) * (w * x)) by (nonlinear_arith);
    assert((x * z) * (y * z) == (z * z) * (x * y)) by (nonlinear_arith);
    assert((x * z) * (w * x) == (x * x) * (w * z)) by (nonlinear_arith);
    assert((w * y) * (y * z) == (y * y) * (w * z)) by (nonlinear_arith);
    assert((w * y) * (w * x) == (w * w) * (x * y)) by (nonlinear_arith);
    assert((x * y) * (y * z) == (y * y) * (x * z)) by (nonlinear_arith);
    assert((x * y) * (w * x) == (x * x) * (w * y)) by (nonlinear_arith);
    assert((w * z) * (y * z) == (z * z) * (w * y)) by (nonlinear_arith);
    assert((w * z) * (w * x) == (w * w) * (x * z)) by (nonlinear_arith);
    assert((x * y) * (x * z) == (x * x) * (y * z)) by (nonlinear_arith);
    assert((x * y) * (w * y) == (y * y) * (w * x)) by (nonlinear_arith);
    assert((w * z) * (x * z) == (z * z) * (w * x)) by (nonlinear_arith);
    assert((w * z) * (w * y) == (w * w) * (y * z)) by (nonlinear_arith);
}

/// The columns of the matrix of a quaternion are as long as its squared
/// length.
pub proof fn lemma_columns_length(q: Q4)
    ensures
        q.m00() * q.m00() + q.m10() * q.m10() + q.m20() * q.m20() == q.norm_sq() * q.norm_sq(),
        q.m01() * q.m01() + q.m11() * q.m11() + q.m21() * q.m21() == q.norm_sq() * q.norm_sq(),
        q.m02() * q.m02() + q.m12() * q.m12() + q.m22() * q.m22() == q.norm_sq() * q.norm_sq(),
{
    let a = q.w * q.w;
    let b = q.x * q.x;
    let c = q.y * q.y;
    let d = q.z * q.z;
    let p = q.x * q.y;
    let r = q.w * q.z;
    let s = q.x * q.z;
    let t = q.w * q.y;
    let u = q.y * q.z;
    let v = q.w * q.x;
    let n = q.norm_sq();
    lemma_pairs_agree(q.w, q.x, q.y, q.z);
    lemma_scale(b, c);
    lemma_scale(b, d);
    lemma_scale(c, d);
    assert((-r) * (-r) == r * r && (-v) * (-v) == v * v && p * (-r) == u * (-v)) by {
        lemma_scale(r, -r);
        lemma_scale(r, r);
        lemma_scale(v, -v);
        lemma_scale(v, v);
        lemma_scale(p, r);
        lemma_scale(u, v);
    }
    lemma_column_square(a, b, c, d, p, r, s, t);
    lemma_same_product(q.m00(), a + b - c - d, q.m00(), a + b - c - d);
    lemma_same_product(q.m10(), 2 * (p + r), q.m10(), 2 * (p + r));
    lemma_same_product(q.m20(), 2 * (s - t), q.m20(), 2 * (s - t));
    lemma_same_product(n, a + b + c + d, n, a + b + c + d);
    lemma_column_square(a, c, b, d, p, -r, u, -v);
    lemma_same_product(q.m11(), a + c - b - d, q.m11(), a + c - b - d);
    lemma_same_product(q.m01(), 2 * (p + (-r)), q.m01(), 2 * (p + (-r)));
    lemma_same_product(q.m21(), 2 * (u - (-v)), q.m21(), 2 * (u - (-v)));
    lemma_same_product(n, a + c + b + d, n, a + c + b + d);
    lemma_column_square(a, d, b, c, s, t, u, v);
    lemma_same_product(q.m22(), a + d - b - c, q.m22(), a + d - b - c);
    lemma_same_product(q.m02(), 2 * (s + t), q.m02(), 2 * (s + t));
    lemma_same_product(q.m12(), 2 * (u - v), q.m12(), 2 * (u - v));
    lemma_same_product(n, a + d + b + c, n, a + d + b + c);
}

proof fn lemma_sub_mul(a: int, b: int, c: int)
    by (nonlinear_arith)
    ensures
        (a - b) * c == a * c - b * c,
{
}

/// The columns of the matrix of a quaternion are orthogonal.
pub proof fn lemma_columns_orthogonal(q: Q4)
    ensures
        q.m00() * q.m01() + q.m10() * q.m11() + q.m20() * q.m21() == 0,
        q.m00() * q.m02() + q.m10() * q.m12() + q.m20() * q.m22() == 0,
        q.m01() * q.m02() + q.m11() * q.m12() + q.m21() * q.m22() == 0,
{
    let a = q.w * q.w;
    let b = q.x * q.x;
    let c = q.y * q.y;
    let d = q.z * q.z;
    let p = q.x * q.y;
    let r = q.w * q.z;
    let s = q.x * q.z;
    let t = q.w * q.y;
    let u = q.y * q.z;
    let v = q.w * q.x;
    lemma_pairs_agree(q.w, q.x, q.y, q.z);
    // First and second column.
    assert(q.m00() * q.m01() + q.m10() * q.m11() + q.m20() * q.m21() == 0) by {
        let x = a - d;
        let y = b - c;
        lemma_expand(s, t, u, v);
        lemma_sub_mul(b, c, r);
        lemma_sub_mul(a, d, p);
        lemma_column_product(x, y, p, r, s, t, u, v);
        lemma_same_product(q.m00(), x + y, q.m01(), 2 * (p - r));
        lemma_same_product(q.m10(), 2 * (p + r), q.m11(), x - y);
        lemma_same_product(q.m20(), 2 * (s - t), q.m21(), 2 * (u + v));
    }
    // First and third column.
    assert(q.m00() * q.m02() + q.m10() * q.m12() + q.m20() * q.m22() == 0) by {
        let x = a - c;
        let y = b - d;
        lemma_expand(p, -r, u, -v);
        lemma_scale(p, v);
        lemma_scale(r, u);
        lemma_scale(r, -v);
        lemma_scale(r, v);
        lemma_sub_mul(b, d, -t);
        lemma_scale(b, t);
        lemma_scale(d, t);
        lemma_sub_mul(a, c, s);
        lemma_column_product(x, y, s, -t, p, -r, u, -v);
        lemma_same_product(q.m00(), x + y, q.m02(), 2 * (s - (-t)));
        lemma_same_product(q.m20(), 2 * (s + (-t)), q.m22(), x - y);
        lemma_same_product(q.m10(), 2 * (p - (-r)), q.m12(), 2 * (u + (-v)));
    }
    // Second and third column.
    assert(q.m01() * q.m02() + q.m11() * q.m12() + q.m21() * q.m22() == 0) by {
        let x = a - b;
        let y = d - c;
        lemma_expand(p, r, s, t);
        lemma_sub_mul(d, c, -v);
        lemma_scale(d, v);
        lemma_scale(c, v);
        lemma_sub_mul(a, b, u);
        lemma_column_product(x, y, u, -v, p, r, s, t);
        lemma_same_product(q.m22(), x + y, q.m21(), 2 * (u - (-v)));
        lemma_same_product(q.m12(), 2 * (u + (-v)), q.m11(), x - y);
        lemma_same_product(q.m01(), 2 * (p - r), q.m02(), 2 * (s + t));
        lemma_scale(q.m21(), q.m22());
        lemma_scale(q.m11(), q.m12());
    }
}

proof fn lemma_row(k: int, a: int, b: int, c: int, x: int, y: int, z: int)
    ensures
        k * (a * x + b * y + c * z) == (k * a) * x + (k * b) * y + (k * c) * z,
{
    assert(k * (a * x + b * y + c * z) == k * (a * x) + k * (b * y) + k * (c * z))
        by (nonlinear_arith);
    assert(k * (a * x) == (k * a) * x) by (nonlinear_arith);
    assert(k * (b * y) == (k * b) * y) by (nonlinear_arith);
    assert(k * (c * z) == (k * c) * z) by (nonlinear_arith);
}

proof fn lemma_collect(a: int, b: int, c: int, x: int)
    by (nonlinear_arith)
    ensures
        (a + b + c) * x == a * x + b * x + c * x,
{
}

/// A column `g` of a matrix times the image of `v` under the matrix is the
/// combination of `v` by the products of `g` with the three columns.
proof fn lemma_column_times_image(
    g0: int,
    g1: int,
    g2: int,
    m00: int,
    m01: int,
    m02: int,
    m10: int,
    m11: int,
    m12: int,
    m20: int,
    m21: int,
    m22: int,
    v: V3,
)
    ensures
        g0 * (m00 * v.x + m01 * v.y + m02 * v.z) + g1 * (m10 * v.x + m11 * v.y + m12 * v.z) + g2 * (
        m20 * v.x + m21 * v.y + m22 * v.z) == (g0 * m00 + g1 * m10 + g2 * m20) * v.x + (g0 * m01
            + g1 * m11 + g2 * m21) * v.y + (g0 * m02 + g1 * m12 + g2 * m22) * v.z,
{
    lemma_row(g0, m00, m01, m02, v.x, v.y, v.z);
    lemma_row(g1, m10, m11, m12, v.x, v.y, v.z);
    lemma_row(g2, m20, m21, m22, v.x, v.y, v.z);
    lemma_collect(g0 * m00, g1 * m10, g2 * m20, v.x);
    lemma_collect(g0 * m01, g1 * m11, g2 * m21, v.y);
    lemma_collect(g0 * m02, g1 * m12, g2 * m22, v.z);
}

/// The vector `v` with every coordinate multiplied by `k`.
pub open spec fn scaled(v: V3, k: int) -> V3 {
    V3 { x: k * v.x, y: k * v.y, z: k * v.z }
}

/// Where `g` is orthogonal to two columns and has the squared length `dd`
/// with the third, the combination keeps only the third coordinate.
proof fn lemma_pick(gg: int, gh: int, gk: int, dd: int, x: int, y: int, z: int)
    requires
        gg == dd,
        gh == 0,
        gk == 0,
    ensures
        gg * x + gh * y + gk * z == dd * x,
{
    lemma_same_product(gg, dd, x, x);
    lemma_same_product(gh, 0, y, y);
    lemma_same_product(gk, 0, z, z);
}

/// The first row of the transposed matrix undoes the matrix, up to the
/// fourth power of the length of the quaternion.
proof fn lemma_transpose_undoes_x(q: Q4, v: V3)
    ensures
        q.m00() * q.rotate_num(v).x + q.m10() * q.rotate_num(v).y + q.m20() * q.rotate_num(v).z
            == (q.norm_sq() * q.norm_sq()) * v.x,
{
    lemma_columns_length(q);
    lemma_columns_orthogonal(q);
    lemma_column_times_image(
        q.m00(),
        q.m10(),
        q.m20(),
        q.m00(),
        q.m01(),
        q.m02(),
        q.m10(),
        q.m11(),
        q.m12(),
        q.m20(),
        q.m21(),
        q.m22(),
        v,
    );
    lemma_pick(
        q.m00() * q.m00() + q.m10() * q.m10() + q.m20() * q.m20(),
        q.m00() * q.m01() + q.m10() * q.m11() + q.m20() * q.m21(),
        q.m00() * q.m02() + q.m10() * q.m12() + q.m20() * q.m22(),
        q.norm_sq() * q.norm_sq(),
        v.x,
        v.y,
        v.z,
    );
}

/// The second row of the transposed matrix undoes the matrix.
proof fn lemma_transpose_undoes_y(q: Q4, v: V3)
    ensures
        q.m01() * q.rotate_num(v).x + q.m11() * q.rotate_num(v).y + q.m21() * q.rotate_num(v).z
            == (q.norm_sq() * q.norm_sq()) * v.y,
{
    lemma_columns_length(q);
    lemma_columns_orthogonal(q);
    lemma_column_times_image(
        q.m01(),
        q.m11(),
        q.m21(),
        q.m00(),
        q.m01(),
        q.m02(),
        q.m10(),
        q.m11(),
        q.m12(),
        q.m20(),
        q.m21(),
        q.m22(),
        v,
    );
    lemma_scale(q.m00(), q.m01());
    lemma_scale(q.m10(), q.m11());
    lemma_scale(q.m20(), q.m21());
    lemma_pick(
        q.m01() * q.m01() + q.m11() * q.m11() + q.m21() * q.m21(),
        q.m01() * q.m00() + q.m11() * q.m10() + q.m21() * q.m20(),
        q.m01() * q.m02() + q.m11() * q.m12() + q.m21() * q.m22(),
        q.norm_sq() * q.norm_sq(),
        v.y,
        v.x,
        v.z,
    );
}

/// The third row of the transposed matrix undoes the matrix.
proof fn lemma_transpose_undoes_z(q: Q4, v: V3)
    ensures
        q.m02() * q.rotate_num(v).x + q.m12() * q.rotate_num(v).y + q.m22() * q.rotate_num(v).z
            == (q.norm_sq() * q.norm_sq()) * v.z,
{
    lemma_columns_length(q);
    lemma_columns_orthogonal(q);
    lemma_column_times_image(
        q.m02(),
        q.m12(),
        q.m22(),
        q.m00(),
        q.m01(),
        q.m02(),
        q.m10(),
        q.m11(),
        q.m12(),
        q.m20(),
        q.m21(),
        q.m22(),
        v,
    );
    lemma_scale(q.m00(), q.m02());
    lemma_scale(q.m10(), q.m12());
    lemma_scale(q.m20(), q.m22());
    lemma_scale(q.m01(), q.m02());
    lemma_scale(q.m11(), q.m12());
    lemma_scale(q.m21(), q.m22());
    lemma_pick(
        q.m02() * q.m02() + q.m12() * q.m12() + q.m22() * q.m22(),
        q.m02() * q.m00() + q.m12() * q.m10() + q.m22() * q.m20(),
        q.m02() * q.m01() + q.m12() * q.m11() + q.m22() * q.m21(),
        q.norm_sq() * q.norm_sq(),
        v.z,
        v.x,
        v.y,
    );
}

/// The transposed matrix undoes the matrix, up to the fourth power of the
/// length of the quaternion.
pub proof fn lemma_transpose_undoes(q: Q4, v: V3)
    ensures
        q.m00() * q.rotate_num(v).x + q.m10() * q.rotate_num(v).y + q.m20() * q.rotate_num(v).z
            == (q.norm_sq() * q.norm_sq()) * v.x,
        q.m01() * q.rotate_num(v).x + q.m11() * q.rotate_num(v).y + q.m21() * q.rotate_num(v).z
            == (q.norm_sq() * q.norm_sq()) * v.y,
        q.m02() * q.rotate_num(v).x + q.m12() * q.rotate_num(v).y + q.m22() * q.rotate_num(v).z
            == (q.norm_sq() * q.norm_sq()) * v.z,
{
    lemma_transpose_undoes_x(q, v);
    lemma_transpose_undoes_y(q, v);
    lemma_transpose_undoes_z(q, v);
}

/// Turning a vector by an orientation and then by the opposite orientation
/// gives the vector back: in exact arithmetic, where a rotation multiplies by
/// the squared length of its quaternion, the result is the vector times the
/// fourth power of that length.
pub proof fn law_rotation_round_trip_exact(q: Q4, v: V3)
    ensures
        q.conjugate().rotate_num(q.rotate_num(v)) == scaled(v, q.norm_sq() * q.norm_sq()),
        q.conjugate().norm_sq() == q.norm_sq(),
{
    lemma_conjugate_transposes(q);
    lemma_transpose_undoes(q, v);
    let n = q.rotate_num(v);
    let c = q.conjugate();
    lemma_same_product(c.m00(), q.m00(), n.x, n.x);
    lemma_same_product(c.m01(), q.m10(), n.y, n.y);
    lemma_same_product(c.m02(), q.m20(), n.z, n.z);
    lemma_same_product(c.m10(), q.m01(), n.x, n.x);
    lemma_same_product(c.m11(), q.m11(), n.y, n.y);
    lemma_same_product(c.m12(), q.m21(), n.z, n.z);
    lemma_same_product(c.m20(), q.m02(), n.x, n.x);
    lemma_same_product(c.m21(), q.m12(), n.y, n.y);
    lemma_same_product(c.m22(), q.m22(), n.z, n.z);
}

/// Three non-negative numbers whose squares add up to the square of `d`
/// add up to less than twice `d`.
proof fn lemma_sum_below_double(a: int, b: int, c: int, d: int)
    requires
        0 <= a,
        0 <= b,
        0 <= c,
        0 < d,
        a * a + b * b + c * c == d * d,
    ensures
        a + b + c <= 2 * d - 1,
        (a + b + c) * d <= 2 * (d * d) - d,
{
    let l = a + b + c;
    assert(l * l <= 3 * (a * a + b * b + c * c)) by (nonlinear_arith)
        requires
            l == a + b + c,
    ;
    if l >= 2 * d {
        assert(l * l >= (2 * d) * (2 * d)) by (nonlinear_arith)
            requires
                l >= 2 * d,
                0 < d,
        ;
        lemma_scale(d, d);
        assert(d * d > 0) by (nonlinear_arith)
            requires
                0 < d,
        ;
    }
    assert(l * d <= (2 * d - 1) * d) by (nonlinear_arith)
        requires
            l <= 2 * d - 1,
            0 < d,
    ;
    assert((2 * d - 1) * d == 2 * (d * d) - d) by (nonlinear_arith);
}

proof fn lemma_term(g: int, u: int, d: int, n: int, e: int)
    requires
        e == 2 * (u * d - n),
    ensures
        ((2 * d) * g) * u == 2 * (g * n) + g * e,
{
    assert(((2 * d) * g) * u == g * (2 * (u * d))) by (nonlinear_arith);
    lemma_same_product(g, g, 2 * (u * d), 2 * n + e);
    assert(g * (2 * n + e) == 2 * (g * n) + g * e) by (nonlinear_arith);
}

/// One coordinate of a vector that was turned, rounded, turned back and
/// rounded again is within one step of where it started.
proof fn lemma_round_trip_coordinate(
    g0: int,
    g1: int,
    g2: int,
    n0: int,
    n1: int,
    n2: int,
    d: int,
    vi: int,
)
    requires
        0 < d,
        g0 * g0 + g1 * g1 + g2 * g2 == d * d,
        g0 * n0 + g1 * n1 + g2 * n2 == (d * d) * vi,
    ensures
        vi - 1 <= round_div(
            g0 * round_div(n0, d) + g1 * round_div(n1, d) + g2 * round_div(n2, d),
            d,
        ) <= vi + 1,
{
    let u0 = round_div(n0, d);
    let u1 = round_div(n1, d);
    let u2 = round_div(n2, d);
    let e0 = 2 * (u0 * d - n0);
    let e1 = 2 * (u1 * d - n1);
    let e2 = 2 * (u2 * d - n2);
    lemma_round_div_error(n0, d);
    lemma_round_div_error(n1, d);
    lemma_round_div_error(n2, d);
    let np = g0 * u0 + g1 * u1 + g2 * u2;
    lemma_row(2 * d, g0, g1, g2, u0, u1, u2);
    lemma_term(g0, u0, d, n0, e0);
    lemma_term(g1, u1, d, n1, e1);
    lemma_term(g2, u2, d, n2, e2);
    let s = g0 * e0 + g1 * e1 + g2 * e2;
    let dd = d * d;
    assert((2 * d) * np == 2 * (dd * vi) + s);
    let a0 = magnitude(g0);
    let a1 = magnitude(g1);
    let a2 = magnitude(g2);
    lemma_product_bound(g0, e0, a0, d);
    lemma_product_bound(g1, e1, a1, d);
    lemma_product_bound(g2, e2, a2, d);
    lemma_collect(a0, a1, a2, d);
    assert(a0 * a0 == g0 * g0) by (nonlinear_arith)
        requires
            a0 == g0 || a0 == -g0,
    ;
    assert(a1 * a1 == g1 * g1) by (nonlinear_arith)
        requires
            a1 == g1 || a1 == -g1,
    ;
    assert(a2 * a2 == g2 * g2) by (nonlinear_arith)
        requires
            a2 == g2 || a2 == -g2,
    ;
    lemma_sum_below_double(a0, a1, a2, d);
    assert(-(2 * dd) <= s <= 2 * dd);
    let lo = (vi - 1) * d;
    let hi = (vi + 1) * d;
    assert((2 * d) * hi == 2 * (dd * vi) + 2 * dd) by (nonlinear_arith)
        requires
            hi == (vi + 1) * d,
            dd == d * d,
    ;
    assert((2 * d) * lo == 2 * (dd * vi) - 2 * dd) by (nonlinear_arith)
        requires
            lo == (vi - 1) * d,
            dd == d * d,
    ;
    assert(lo <= np <= hi) by (nonlinear_arith)
        requires
            (2 * d) * lo <= (2 * d) * np <= (2 * d) * hi,
            0 < d,
    ;
    lemma_round_div_between(np, d, vi - 1, vi + 1);
}

/// `a` and `b` differ by at most one on every axis.
pub open spec fn within_one_step(a: V3, b: V3) -> bool {
    &&& b.x - 1 <= a.x <= b.x + 1
    &&& b.y - 1 <= a.y <= b.y + 1
    &&& b.z - 1 <= a.z <= b.z + 1
}

/// Turning a vector by an orientation and then by the opposite orientation
/// gives the vector back, within one step on every axis: what the two
/// roundings can lose.
pub proof fn law_rotation_round_trip(q: Q4, v: V3)
    requires
        0 < q.norm_sq(),
    ensures
        within_one_step(q.conjugate().rotated(q.rotated(v)), v),
{
    let c = q.conjugate();
    let n = q.rotate_num(v);
    let u = q.rotated(v);
    let d = q.norm_sq();
    lemma_conjugate_transposes(q);
    lemma_columns_length(q);
    lemma_transpose_undoes(q, v);
    lemma_round_trip_coordinate(q.m00(), q.m10(), q.m20(), n.x, n.y, n.z, d, v.x);
    lemma_round_trip_coordinate(q.m01(), q.m11(), q.m21(), n.x, n.y, n.z, d, v.y);
    lemma_round_trip_coordinate(q.m02(), q.m12(), q.m22(), n.x, n.y, n.z, d, v.z);
    lemma_same_product(c.m00(), q.m00(), u.x, u.x);
    lemma_same_product(c.m01(), q.m10(), u.y, u.y);
    lemma_same_product(c.m02(), q.m20(), u.z, u.z);
    lemma_same_product(c.m10(), q.m01(), u.x, u.x);
    lemma_same_product(c.m11(), q.m11(), u.y, u.y);
    lemma_same_product(c.m12(), q.m21(), u.z, u.z);
    lemma_same_product(c.m20(), q.m02(), u.x, u.x);
    lemma_same_product(c.m21(), q.m12(), u.y, u.y);
    lemma_same_product(c.m22(), q.m22(), u.z, u.z);
}

/// A quaternion without an axis turns nothing, whatever its length.
pub proof fn law_identity_turns_nothing(q: Q4, v: V3)
    requires
        q.x == 0,
        q.y == 0,
        q.z == 0,
        q.w != 0,
    ensures
        q.rotated(v) == v,
{
    let d = q.w * q.w;
    assert(d > 0) by (nonlinear_arith)
        requires
            d == q.w * q.w,
            q.w != 0,
    ;
    assert(q.norm_sq() == d);
    assert(q.m00() == d && q.m11() == d && q.m22() == d);
    assert(q.m01() == 0 && q.m02() == 0 && q.m10() == 0);
    assert(q.m12() == 0 && q.m20() == 0 && q.m21() == 0);
    lemma_scale(d, v.x);
    lemma_scale(d, v.y);
    lemma_scale(d, v.z);
    lemma_round_div_exact(v.x, d);
    lemma_round_div_exact(v.y, d);
    lemma_round_div_exact(v.z, d);
}

/// A turn about the third axis leaves the third coordinate alone.
pub proof fn law_planar_rotation(q: Q4, v: V3)
    requires
        q.x == 0,
        q.y == 0,
        0 < q.norm_sq(),
    ensures
        q.rotated(v).z == v.z,
{
    let d = q.norm_sq();
    assert(q.m20() == 0 && q.m21() == 0 && q.m22() == d);
    lemma_scale(d, v.z);
    lemma_round_div_exact(v.z, d);
}

} // verus!
