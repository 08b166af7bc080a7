//! Two-dimensional fixed-point vectors and the handful of vector operations
//! the simulation needs: sum, difference, scaling, dot product and squared
//! length.

use vstd::prelude::*;

use crate::fx::{fx_add, fx_add_spec, fx_mul, fx_mul_spec, FX_MAX, fx_sub, fx_sub_spec, SCALE};

verus! {

/// A planar vector with fixed-point components.
#[derive(Clone, Copy, Debug, PartialEq, Eq, Structural)]
pub struct Vec2 {
    pub x: i64,
    pub y: i64,
}

impl Vec2 {
    /// The x component as an unbounded integer, for contracts.
    pub open spec fn xi(self) -> int {
        self.x as int
    }

    /// The y component as an unbounded integer, for contracts.
    pub open spec fn yi(self) -> int {
        self.y as int
    }

    /// Builds a vector from its components.
    pub fn new(x: i64, y: i64) -> (r: Vec2)
        ensures
            r == (Vec2 { x, y }),
    {
        Vec2 { x, y }
    }

    /// The zero vector.
    pub fn zero() -> (r: Vec2)
        ensures
            r == (Vec2 { x: 0i64, y: 0i64 }),
    {
        Vec2 { x: 0, y: 0 }
    }
}

/// Builds a vector from unbounded components known to fit the grid.
pub open spec fn v2(x: int, y: int) -> Vec2
    recommends
        -(FX_MAX as int) <= x <= FX_MAX as int,
        -(FX_MAX as int) <= y <= FX_MAX as int,
{
    Vec2 { x: x as i64, y: y as i64 }
}

/// Exact componentwise sum.
pub open spec fn vadd_spec(a: Vec2, b: Vec2) -> Vec2 {
    v2(fx_add_spec(a.xi(), b.xi()), fx_add_spec(a.yi(), b.yi()))
}

/// Exact componentwise difference.
pub open spec fn vsub_spec(a: Vec2, b: Vec2) -> Vec2 {
    v2(fx_sub_spec(a.xi(), b.xi()), fx_sub_spec(a.yi(), b.yi()))
}

/// Exact componentwise scaling.
pub open spec fn vscale_spec(a: Vec2, s: int) -> Vec2 {
    v2(fx_mul_spec(a.xi(), s), fx_mul_spec(a.yi(), s))
}

/// Exact dot product on the grid.
pub open spec fn dot_spec(a: Vec2, b: Vec2) -> int {
    fx_add_spec(fx_mul_spec(a.xi(), b.xi()), fx_mul_spec(a.yi(), b.yi()))
}

/// Exact squared length on the grid.
pub open spec fn sqlen_spec(a: Vec2) -> int {
    fx_add_spec(fx_mul_spec(a.xi(), a.xi()), fx_mul_spec(a.yi(), a.yi()))
}

/// A square on the grid is nonnegative.
pub proof fn lemma_fx_square_nonneg(d: int)
    ensures
        fx_mul_spec(d, d) >= 0,
{
    assert(d * d >= 0) by (nonlinear_arith);
    vstd::arithmetic::div_mod::lemma_div_pos_is_pos(d * d, SCALE as int);
}

/// The squared length of any vector is nonnegative.
pub proof fn lemma_sqlen_nonneg(a: Vec2)
    ensures
        sqlen_spec(a) >= 0,
{
    lemma_fx_square_nonneg(a.xi());
    lemma_fx_square_nonneg(a.yi());
}

/// Squaring does not see the sign of a grid scalar.
pub proof fn lemma_fx_square_neg(d: int)
    ensures
        fx_mul_spec(-d, -d) == fx_mul_spec(d, d),
{
    assert((-d) * (-d) == d * d) by (nonlinear_arith);
}

/// Vector sum.
pub fn vadd(a: Vec2, b: Vec2) -> (r: Vec2)
    ensures
        r == vadd_spec(a, b),
{
    Vec2 { x: fx_add(a.x, b.x), y: fx_add(a.y, b.y) }
}

/// Vector difference.
pub fn vsub(a: Vec2, b: Vec2) -> (r: Vec2)
    ensures
        r == vsub_spec(a, b),
{
    Vec2 { x: fx_sub(a.x, b.x), y: fx_sub(a.y, b.y) }
}

/// Vector scaled by a scalar.
pub fn vscale(a: Vec2, s: i64) -> (r: Vec2)
    ensures
        r == vscale_spec(a, s as int),
{
    Vec2 { x: fx_mul(a.x, s), y: fx_mul(a.y, s) }
}

/// Dot product.
pub fn dot(a: Vec2, b: Vec2) -> (r: i64)
    ensures
        r as int == dot_spec(a, b),
{
    fx_add(fx_mul(a.x, b.x), fx_mul(a.y, b.y))
}

/// Squared length, the collision predicate's distance measure.
pub fn square_len(a: Vec2) -> (r: i64)
    ensures
        r as int == sqlen_spec(a),
        r >= 0,
{
    proof {
        lemma_sqlen_nonneg(a);
    }
    fx_add(fx_mul(a.x, a.x), fx_mul(a.y, a.y))
}

} // verus!
