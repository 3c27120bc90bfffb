use rcs_flight::fixed::{div_round, div_trunc, isqrt, isqrt_ceil, SCALE};
use rcs_flight::vector::{Vec2, Vec3};

#[test]
fn integer_square_roots() {
    assert_eq!(isqrt(0), 0);
    assert_eq!(isqrt(1), 1);
    assert_eq!(isqrt(3), 1);
    assert_eq!(isqrt(4), 2);
    assert_eq!(isqrt(24), 4);
    assert_eq!(isqrt(25), 5);
    assert_eq!(isqrt(450_000_000_000_000), 21_213_203);
    assert_eq!(isqrt(u128::MAX), u64::MAX);
    assert_eq!(isqrt((u64::MAX as u128) * (u64::MAX as u128)), u64::MAX);
    assert_eq!(isqrt((u64::MAX as u128) * (u64::MAX as u128) - 1), u64::MAX - 1);
    assert_eq!(isqrt_ceil(0), 0);
    assert_eq!(isqrt_ceil(24), 5);
    assert_eq!(isqrt_ceil(25), 5);
    assert_eq!(isqrt_ceil(26), 6);
    assert_eq!(isqrt_ceil(u128::MAX), 1u128 << 64);
}

#[test]
fn rounding_division() {
    assert_eq!(div_round(7, 2), 4);
    assert_eq!(div_round(-7, 2), -4);
    assert_eq!(div_round(5, 10), 1);
    assert_eq!(div_round(4, 10), 0);
    assert_eq!(div_round(-4, 10), 0);
    assert_eq!(div_round(-5, 10), -1);
    assert_eq!(div_round(14, 10), 1);
    assert_eq!(div_round(15, 10), 2);
    assert_eq!(div_round(0, 3), 0);
    assert_eq!(div_round(i128::MAX, 1), i128::MAX);
    assert_eq!(div_round(i128::MAX, i128::MAX), 1);
    assert_eq!(div_round(-i128::MAX, i128::MAX), -1);
    assert_eq!(div_round(i128::MAX / 2, i128::MAX), 0);
    assert_eq!(div_round(i128::MAX / 2 + 1, i128::MAX), 1);
    assert_eq!(div_trunc(7, 2), 3);
    assert_eq!(div_trunc(-7, 2), -3);
    assert_eq!(div_trunc(-1, 2), 0);
}

#[test]
fn lengths() {
    assert_eq!(Vec3::new(3, 4, 12).length_squared(), 169);
    assert_eq!(Vec3::new(3, 4, 12).length(), 13);
    assert_eq!(Vec3::new(5 * SCALE, 5 * SCALE, -20 * SCALE).length(), 21_213_203);
    assert_eq!(Vec3::zero().length(), 0);
    assert_eq!(Vec2::new(3, -4).length(), 5);
    assert_eq!(Vec2::new(3, -4).length_squared(), 25);
    assert_eq!(
        Vec3::new(i64::MIN, i64::MIN, i64::MIN).length_squared(),
        3 * (1u128 << 126)
    );
}

#[test]
fn difference_and_dot() {
    let a = Vec3::new(5, 7, -9);
    let b = Vec3::new(1, -2, 3);
    assert_eq!(a.minus(b), Vec3::new(4, 9, -12));
    assert_eq!(a.dot(b), 5 - 14 - 27);
    assert_eq!(a.truncate(), Vec2::new(5, 7));
    assert_eq!(Vec2::new(5, 7).extend(-9), a);
}

#[test]
fn clamp_keeps_what_is_short_enough() {
    let v = Vec3::new(3, 4, 0);
    assert_eq!(v.clamp_length_max(5), v);
    assert_eq!(v.clamp_length_max(6), v);
    assert_eq!(Vec3::zero().clamp_length_max(0), Vec3::zero());
}

#[test]
fn clamp_shortens_what_is_longer() {
    assert_eq!(
        Vec3::new(3 * SCALE, 4 * SCALE, 0).clamp_length_max(2_500_000),
        Vec3::new(1_500_000, 2_000_000, 0)
    );
    assert_eq!(Vec3::new(0, 0, -9).clamp_length_max(4), Vec3::new(0, 0, -4));
    assert_eq!(Vec3::new(10_000, 0, -10_000).clamp_length_max(10_000), Vec3::new(7_070, 0, -7_070));
    assert_eq!(Vec3::new(1, 1, 1).clamp_length_max(0), Vec3::zero());
    assert_eq!(Vec2::new(6, 8).clamp_length_max(5), Vec2::new(3, 4));
}

#[test]
fn clamp_never_exceeds_the_bound() {
    let vectors = [
        Vec3::new(1, 1, 1),
        Vec3::new(-7, 11, 13),
        Vec3::new(10_000, 10_000, -10_000),
        Vec3::new(i64::MAX, i64::MIN, i64::MAX),
        Vec3::new(i64::MIN, 0, 0),
    ];
    for v in vectors {
        for max in [0i64, 1, 2, 10, 9_999, 10_000, 1 << 40, i64::MAX] {
            let r = v.clamp_length_max(max);
            assert!(r.length_squared() <= (max as u128) * (max as u128));
            assert!(r.x.unsigned_abs() <= v.x.unsigned_abs());
            assert!(r.y.unsigned_abs() <= v.y.unsigned_abs());
            assert!(r.z.unsigned_abs() <= v.z.unsigned_abs());
        }
    }
}
