//! Unit tests of the fixed-point scalar and vector operations.

use galaxy::fx::{fx_add, fx_div, fx_mul, fx_sqrt, fx_sub, FX_MAX};
use galaxy::vec2::{dot, square_len, vadd, vscale, vsub, Vec2};

#[test]
fn test_fx_mul_exact_and_rounded() {
    // 1.5 * 1.5 == 2.25 exactly
    assert_eq!(fx_mul(1_500_000, 1_500_000), 2_250_000);
    assert_eq!(fx_mul(-1_500_000, 1_500_000), -2_250_000);
    assert_eq!(fx_mul(-1_500_000, -1_500_000), 2_250_000);
    // a product below one grid unit rounds toward zero
    assert_eq!(fx_mul(1, 1), 0);
    assert_eq!(fx_mul(-1, 1), 0);
}

#[test]
fn test_fx_div_rounds_toward_zero() {
    // 1 / 3 == 0.333333 on the grid
    assert_eq!(fx_div(1_000_000, 3_000_000), 333_333);
    assert_eq!(fx_div(-1_000_000, 3_000_000), -333_333);
    assert_eq!(fx_div(0, 7), 0);
}

#[test]
fn test_fx_sqrt_values() {
    // sqrt(4) == 2 exactly; sqrt(2) rounds down to 1.414213
    assert_eq!(fx_sqrt(4_000_000), 2_000_000);
    assert_eq!(fx_sqrt(2_000_000), 1_414_213);
    assert_eq!(fx_sqrt(0), 0);
    assert_eq!(fx_sqrt(1), 1_000);
}

#[test]
fn test_fx_saturation_is_symmetric() {
    assert_eq!(fx_add(FX_MAX, FX_MAX), FX_MAX);
    assert_eq!(fx_sub(-FX_MAX, FX_MAX), -FX_MAX);
    assert_eq!(fx_add(FX_MAX, -FX_MAX), 0);
}

#[test]
fn test_vector_operations() {
    let a = Vec2::new(1_000_000, -2_000_000);
    let b = Vec2::new(500_000, 250_000);
    assert_eq!(vadd(a, b), Vec2::new(1_500_000, -1_750_000));
    assert_eq!(vsub(a, b), Vec2::new(500_000, -2_250_000));
    assert_eq!(vscale(a, 2_000_000), Vec2::new(2_000_000, -4_000_000));
    // 1.0 * 0.5 + (-2.0) * 0.25 == 0
    assert_eq!(dot(a, b), 0);
    // |(3, 4)|^2 == 25
    assert_eq!(square_len(Vec2::new(3_000_000, 4_000_000)), 25_000_000);
}
