//! Vector math and scalar utilities, on fixed-point values (millionths).

use elria_engine::fixed::{fx_add, fx_div, fx_mul, fx_sub, isqrt_u128, FX_ONE};
use elria_engine::math::{
    clamp, degrees_to_radians, lerp, radians_to_degrees, smoothstep, Random, Vector2D, Vector3D,
    FX_PI,
};

#[test]
fn test_vector2d_operations() {
    let v1 = Vector2D::new(3_000_000, 4_000_000);
    let v2 = Vector2D::new(1_000_000, 2_000_000);

    assert_eq!(v1.add(v2), Vector2D::new(4_000_000, 6_000_000));
    assert_eq!(v1.sub(v2), Vector2D::new(2_000_000, 2_000_000));
    assert_eq!(v1.scale(2_000_000), Vector2D::new(6_000_000, 8_000_000));
    assert_eq!(v1.magnitude(), 5_000_000);
    assert_eq!(v1.dot(&v2), 11_000_000);
}

#[test]
fn test_vector3d_operations() {
    let v1 = Vector3D::new(1_000_000, 2_000_000, 3_000_000);
    let v2 = Vector3D::new(4_000_000, 5_000_000, 6_000_000);

    assert_eq!(v1.add(v2), Vector3D::new(5_000_000, 7_000_000, 9_000_000));
    assert_eq!(v1.sub(v2), Vector3D::new(-3_000_000, -3_000_000, -3_000_000));
    assert_eq!(v1.scale(2_000_000), Vector3D::new(2_000_000, 4_000_000, 6_000_000));
    assert_eq!(v1.dot(&v2), 32_000_000);
    assert_eq!(
        v1.cross(&v2),
        Vector3D::new(-3_000_000, 6_000_000, -3_000_000)
    );
}

#[test]
fn fixed_point_scalars_are_total() {
    // Division by zero is defined as zero, and the range saturates.
    assert_eq!(fx_div(5_000_000, 0), 0);
    assert_eq!(fx_div(5_000_000, 2_000_000), 2_500_000);
    assert_eq!(fx_mul(2_000_000, 3_000_000), 6_000_000);
    assert_eq!(fx_add(i64::MAX, 1), i64::MAX);
    assert_eq!(fx_sub(i64::MIN, 1), i64::MIN);
    // Truncation rounds toward zero on both signs.
    assert_eq!(fx_mul(-1_500_000, 1), -1);
    assert_eq!(fx_mul(1_500_000, 1), 1);
}

#[test]
fn integer_square_root_is_exact() {
    assert_eq!(isqrt_u128(0), 0);
    assert_eq!(isqrt_u128(1), 1);
    assert_eq!(isqrt_u128(24), 4);
    assert_eq!(isqrt_u128(25), 5);
    assert_eq!(isqrt_u128(u128::MAX), u64::MAX);
}

#[test]
fn normalize_of_zero_is_zero() {
    let z = Vector3D::zero();
    assert_eq!(z.normalize(), Vector3D::zero());
    let v = Vector3D::new(3_000_000, 0, 4_000_000);
    let n = v.normalize();
    // A 3-4-5 triangle normalizes exactly.
    assert_eq!(n, Vector3D::new(600_000, 0, 800_000));
}

#[test]
fn clamp_magnitude_caps_speed() {
    let v = Vector3D::new(3_000_000, 4_000_000, 0);
    let c = v.clamp_magnitude(1_000_000);
    assert!(c.magnitude() <= 1_000_000);
    // A vector already under the cap passes through unchanged.
    let small = Vector3D::new(100_000, 0, 0);
    assert_eq!(small.clamp_magnitude(1_000_000), small);
}

#[test]
fn scalar_helpers_match_formulas() {
    assert_eq!(clamp(5, 0, 10), 5);
    assert_eq!(clamp(-5, 0, 10), 0);
    assert_eq!(clamp(15, 0, 10), 10);
    assert_eq!(lerp(0, 10_000_000, 500_000), 5_000_000);
    assert_eq!(smoothstep(0, FX_ONE, 500_000), 500_000);
    assert_eq!(smoothstep(0, FX_ONE, 0), 0);
    assert_eq!(smoothstep(0, FX_ONE, FX_ONE), FX_ONE);
}

#[test]
fn random_is_deterministic_and_ranged() {
    let mut a = Random::new(42);
    let mut b = Random::new(42);
    for _ in 0..16 {
        assert_eq!(a.next_i32(), b.next_i32());
    }
    let mut r = Random::new(7);
    for _ in 0..64 {
        let x = r.range_i32(-3, 9);
        assert!((-3..=9).contains(&x));
    }
}

#[test]
fn reflect_across_axis() {
    // Reflecting across the unit y-axis flips the y component.
    let v = Vector3D::new(1_000_000, -2_000_000, 3_000_000);
    let n = Vector3D::new(0, FX_ONE, 0);
    assert_eq!(
        v.reflect(&n),
        Vector3D::new(1_000_000, 2_000_000, 3_000_000)
    );
}

#[test]
fn angle_conversions_round_between_units() {
    assert_eq!(degrees_to_radians(180_000_000), FX_PI);
    assert_eq!(radians_to_degrees(FX_PI), 180_000_000);
    assert_eq!(degrees_to_radians(90_000_000), 1_570_796);
}
