//! Exact-value tests for the fixed-point vector arithmetic.

use spring::fixed::{LIMIT, SCALE};
use spring::vector::Vector2;

#[test]
fn scale_is_one_thousand() {
    assert_eq!(SCALE, 1000);
    assert_eq!(LIMIT, 0x7fff_ffff);
}

#[test]
fn add_componentwise() {
    let a = Vector2::new(1500, -2500);
    let b = Vector2::new(500, 1000);
    let r = a.add(b);
    assert_eq!(r, Vector2::new(2000, -1500));
}

#[test]
fn add_saturates_at_limit() {
    let a = Vector2::new(LIMIT, -LIMIT);
    let b = Vector2::new(LIMIT, -LIMIT);
    let r = a.add(b);
    assert_eq!(r, Vector2::new(LIMIT, -LIMIT));
}

#[test]
fn sub_componentwise() {
    let a = Vector2::new(1500, 300);
    let b = Vector2::new(500, 1000);
    assert_eq!(a.sub(b), Vector2::new(1000, -700));
}

#[test]
fn neg_flips_both_components() {
    let a = Vector2::new(123, -456);
    assert_eq!(a.neg(), Vector2::new(-123, 456));
}

#[test]
fn mul_is_fixed_point() {
    // 2.0 * 3.0 == 6.0 and 0.5 * 0.5 == 0.25 in fixed point.
    let a = Vector2::new(2000, 500);
    let b = Vector2::new(3000, 500);
    assert_eq!(a.mul(b), Vector2::new(6000, 250));
}

#[test]
fn div_is_fixed_point() {
    // 6.0 / 3.0 == 2.0; -1.0 / 4.0 == -0.25 (truncated toward zero).
    let a = Vector2::new(6000, -1000);
    let b = Vector2::new(3000, 4000);
    assert_eq!(a.div(b), Vector2::new(2000, -250));
}

#[test]
fn scalar_mul_scales_both_components() {
    // (1.5, -2.0) * 2.0 == (3.0, -4.0).
    let a = Vector2::new(1500, -2000);
    assert_eq!(a.scalar_mul(2000), Vector2::new(3000, -4000));
}

#[test]
fn scalar_div_divides_both_components() {
    // (3.0, -4.0) / 2.0 == (1.5, -2.0).
    let a = Vector2::new(3000, -4000);
    assert_eq!(a.scalar_div(2000), Vector2::new(1500, -2000));
}

#[test]
fn dot_product_exact() {
    // (1.0, 2.0) . (3.0, 4.0) == 11.0.
    let a = Vector2::new(1000, 2000);
    let b = Vector2::new(3000, 4000);
    assert_eq!(a.scalar(b), 11_000);
}

#[test]
fn mag_of_three_four_is_five() {
    // |(3.0, 4.0)| == 5.0.
    let v = Vector2::new(3000, 4000);
    assert_eq!(v.mag(), 5000);
}

#[test]
fn mag_truncates_downward() {
    // |(1.0, 1.0)| == sqrt(2) == 1.414..., floor 1414.
    let v = Vector2::new(1000, 1000);
    assert_eq!(v.mag(), 1414);
}

#[test]
fn norm_of_zero_is_zero() {
    let v = Vector2::zero();
    assert_eq!(v.norm(), Vector2::zero());
}

#[test]
fn norm_of_axis_vector_is_unit() {
    let v = Vector2::new(10_000, 0);
    let n = v.norm();
    assert_eq!(n, Vector2::new(SCALE, 0));
    assert_eq!(n.mag(), SCALE);
}

#[test]
fn norm_of_negative_diagonal() {
    // (-3.0, 4.0) normalizes to (-0.6, 0.8) exactly.
    let v = Vector2::new(-3000, 4000);
    assert_eq!(v.norm(), Vector2::new(-600, 800));
}

#[test]
fn norm_magnitude_stays_near_one_unit() {
    // The proved law: vectors at least one unit long normalize to within
    // three raw steps of one unit.
    let samples = vec![
        Vector2::new(1000, 0),
        Vector2::new(1234, 5678),
        Vector2::new(-99_999, 54_321),
        Vector2::new(2_000_000_000, -2_000_000_000),
        Vector2::new(7, -1300),
    ];
    for v in samples {
        let m = v.norm().mag();
        assert!(SCALE - 3 <= m && m <= SCALE);
    }
}

#[test]
fn assign_forms_match_pure_forms() {
    let a = Vector2::new(1200, -300);
    let b = Vector2::new(400, 250);
    let mut c = a;
    c.add_assign(b);
    assert_eq!(c, a.add(b));
    let mut d = a;
    d.sub_assign(b);
    assert_eq!(d, a.sub(b));
    let mut e = a;
    e.mul_assign(b);
    assert_eq!(e, a.mul(b));
    let mut f = a;
    f.div_assign(b);
    assert_eq!(f, a.div(b));
}
