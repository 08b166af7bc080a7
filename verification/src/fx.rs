//! Fixed-point scalar arithmetic.
//!
//! A scalar is an `i64` counting grid units of `1 / SCALE`; one whole unit is
//! `SCALE` grid units. Every operation saturates onto the symmetric range
//! `[-FX_MAX, FX_MAX]`, so no operation can overflow or panic, and each
//! operation's contract states its exact result on the grid.

use vstd::prelude::*;

verus! {

/// Grid units per whole unit: the scalar `SCALE` is the number one.
pub const SCALE: i64 = 1_000_000;

/// Largest representable scalar. The grid is symmetric: the smallest is
/// `-FX_MAX`, so negation never overflows.
pub const FX_MAX: i64 = 0x7fff_ffff_ffff_ffff;

/// Saturation of an unbounded integer onto the symmetric scalar range.
pub open spec fn fx_clamp(v: int) -> int {
    if v > FX_MAX {
        FX_MAX as int
    } else if v < -(FX_MAX as int) {
        -(FX_MAX as int)
    } else {
        v
    }
}

/// Division rounded toward zero (every use has a positive divisor).
pub open spec fn tdiv(n: int, d: int) -> int
    recommends
        d > 0,
{
    if n >= 0 {
        n / d
    } else {
        -((-n) / d)
    }
}

/// Exact value of saturating addition.
pub open spec fn fx_add_spec(a: int, b: int) -> int {
    fx_clamp(a + b)
}

/// Exact value of saturating subtraction.
pub open spec fn fx_sub_spec(a: int, b: int) -> int {
    fx_clamp(a - b)
}

/// Exact value of fixed-point multiplication: the true product rounded
/// toward zero onto the grid, then saturated.
pub open spec fn fx_mul_spec(a: int, b: int) -> int {
    fx_clamp(tdiv(a * b, SCALE as int))
}

/// Exact value of fixed-point division: the true quotient rounded toward
/// zero onto the grid, then saturated.
pub open spec fn fx_div_spec(a: int, b: int) -> int
    recommends
        b > 0,
{
    fx_clamp(tdiv(a * SCALE, b))
}

/// The integer square root: the unique `r >= 0` with `r * r <= x < (r+1)^2`.
pub open spec fn sqrt_floor(x: int) -> int
    recommends
        x >= 0,
{
    choose|r: int| 0 <= r && #[trigger] (r * r) <= x && x < (r + 1) * (r + 1)
}

/// Exact value of the fixed-point square root of a nonnegative scalar.
pub open spec fn fx_sqrt_spec(a: int) -> int
    recommends
        a >= 0,
{
    sqrt_floor(a * SCALE)
}

/// The square root is determined by its characteristic inequalities.
pub proof fn lemma_sqrt_unique(x: int, r1: int, r2: int)
    requires
        0 <= r1,
        r1 * r1 <= x < (r1 + 1) * (r1 + 1),
        0 <= r2,
        r2 * r2 <= x < (r2 + 1) * (r2 + 1),
    ensures
        r1 == r2,
{
    assert(r1 == r2) by (nonlinear_arith)
        requires
            0 <= r1,
            r1 * r1 <= x < (r1 + 1) * (r1 + 1),
            0 <= r2,
            r2 * r2 <= x < (r2 + 1) * (r2 + 1),
    ;
}

/// Any witness of the characteristic inequalities equals `sqrt_floor`.
pub proof fn lemma_sqrt_floor_is(x: int, r: int)
    requires
        0 <= r,
        r * r <= x < (r + 1) * (r + 1),
    ensures
        sqrt_floor(x) == r,
{
    assert(0 <= r && r * r <= x && x < (r + 1) * (r + 1));
    let c = sqrt_floor(x);
    assert(0 <= c && c * c <= x && x < (c + 1) * (c + 1)) by {
        assert(exists|q: int| 0 <= q && #[trigger] (q * q) <= x && x < (q + 1) * (q + 1));
    }
    lemma_sqrt_unique(x, c, r);
}

/// Saturation is symmetric: clamping commutes with negation.
pub proof fn lemma_clamp_neg(v: int)
    ensures
        fx_clamp(-v) == -fx_clamp(v),
{
}

/// Division toward zero is symmetric in its dividend.
pub proof fn lemma_tdiv_neg(n: int, d: int)
    requires
        d > 0,
    ensures
        tdiv(-n, d) == -tdiv(n, d),
{
}

/// Fixed-point multiplication is odd in each factor: negating one factor
/// negates the product, negating both restores it.
pub proof fn lemma_fx_mul_neg(a: int, b: int)
    ensures
        fx_mul_spec(-a, b) == -fx_mul_spec(a, b),
        fx_mul_spec(a, -b) == -fx_mul_spec(a, b),
        fx_mul_spec(-a, -b) == fx_mul_spec(a, b),
{
    assert((-a) * b == -(a * b) && a * (-b) == -(a * b) && (-a) * (-b) == a * b)
        by (nonlinear_arith);
    lemma_tdiv_neg(a * b, SCALE as int);
    lemma_clamp_neg(tdiv(a * b, SCALE as int));
}

pub(crate) fn clamp_wide(v: i128) -> (r: i64)
    ensures
        r as int == fx_clamp(v as int),
{
    if v > FX_MAX as i128 {
        FX_MAX
    } else if v < -(FX_MAX as i128) {
        -FX_MAX
    } else {
        v as i64
    }
}

/// Saturating fixed-point addition.
pub fn fx_add(a: i64, b: i64) -> (r: i64)
    ensures
        r as int == fx_add_spec(a as int, b as int),
{
    clamp_wide(a as i128 + b as i128)
}

/// Saturating fixed-point subtraction.
pub fn fx_sub(a: i64, b: i64) -> (r: i64)
    ensures
        r as int == fx_sub_spec(a as int, b as int),
{
    clamp_wide(a as i128 - b as i128)
}

/// Magnitude and sign of the true product: `|a| * |b| == |a * b|`, with the
/// product's sign given by the factors' signs.
proof fn lemma_product_magnitude(a: int, b: int)
    ensures
        a >= 0 && b >= 0 ==> a * b >= 0,
        a < 0 && b >= 0 ==> a * b <= 0 && (-a) * b == -(a * b),
        a >= 0 && b < 0 ==> a * b <= 0 && a * (-b) == -(a * b),
        a < 0 && b < 0 ==> a * b >= 0 && (-a) * (-b) == a * b,
{
    vstd::arithmetic::mul::lemma_mul_unary_negation(a, b);
    vstd::arithmetic::mul::lemma_mul_is_commutative(a, b);
    vstd::arithmetic::mul::lemma_mul_unary_negation(b, a);
    vstd::arithmetic::mul::lemma_mul_cancels_negatives(a, b);
    if a >= 0 && b >= 0 {
        vstd::arithmetic::mul::lemma_mul_nonnegative(a, b);
    }
    if a < 0 && b >= 0 {
        vstd::arithmetic::mul::lemma_mul_nonnegative(-a, b);
    }
    if a >= 0 && b < 0 {
        vstd::arithmetic::mul::lemma_mul_nonnegative(a, -b);
    }
    if a < 0 && b < 0 {
        vstd::arithmetic::mul::lemma_mul_nonnegative(-a, -b);
    }
}

/// Builds the signed, saturated result from the magnitude `q >= 0` of a
/// quotient rounded toward zero.
fn apply_sign(q: u128, neg: bool) -> (r: i64)
    ensures
        !neg ==> r as int == fx_clamp(q as int),
        neg ==> r as int == fx_clamp(-(q as int)),
{
    if neg {
        if q > FX_MAX as u128 {
            -FX_MAX
        } else {
            -(q as i64)
        }
    } else {
        if q > FX_MAX as u128 {
            FX_MAX
        } else {
            q as i64
        }
    }
}

/// Fixed-point multiplication: the true product, rounded toward zero onto
/// the grid and saturated.
pub fn fx_mul(a: i64, b: i64) -> (r: i64)
    ensures
        r as int == fx_mul_spec(a as int, b as int),
{
    let wa: i128 = a as i128;
    let wb: i128 = b as i128;
    let ma: u128 = if wa < 0 {
        (-wa) as u128
    } else {
        wa as u128
    };
    let mb: u128 = if wb < 0 {
        (-wb) as u128
    } else {
        wb as u128
    };
    proof {
        vstd::arithmetic::mul::lemma_mul_upper_bound(
            ma as int,
            0x8000_0000_0000_0000,
            mb as int,
            0x8000_0000_0000_0000,
        );
    }
    let p: u128 = ma * mb;
    let q: u128 = p / (SCALE as u128);
    let neg: bool = (a < 0) != (b < 0);
    proof {
        lemma_product_magnitude(a as int, b as int);
        let prod: int = (a as int) * (b as int);
        assert(p as int == if prod >= 0 { prod } else { -prod });
        if neg {
            assert(q as int == -tdiv(prod, SCALE as int));
        } else {
            assert(q as int == tdiv(prod, SCALE as int));
        }
    }
    apply_sign(q, neg)
}

/// Fixed-point division by a positive scalar: the true quotient, rounded
/// toward zero onto the grid and saturated.
pub fn fx_div(a: i64, b: i64) -> (r: i64)
    requires
        b > 0,
    ensures
        r as int == fx_div_spec(a as int, b as int),
{
    let wa: i128 = a as i128;
    let ma: u128 = if wa < 0 {
        (-wa) as u128
    } else {
        wa as u128
    };
    proof {
        vstd::arithmetic::mul::lemma_mul_upper_bound(
            ma as int,
            0x8000_0000_0000_0000,
            SCALE as int,
            0x8000_0000_0000_0000,
        );
    }
    let num: u128 = ma * (SCALE as u128);
    let q: u128 = num / (b as u128);
    proof {
        lemma_product_magnitude(a as int, SCALE as int);
        let prod: int = (a as int) * (SCALE as int);
        assert(num as int == if prod >= 0 { prod } else { -prod });
        if a < 0 {
            assert(q as int == -tdiv(prod, b as int));
        } else {
            assert(q as int == tdiv(prod, b as int));
        }
    }
    apply_sign(q, a < 0)
}

/// Binary search for the integer square root of a wide value.
fn isqrt_wide(x: u128) -> (r: u128)
    requires
        x as int <= (FX_MAX as int) * (SCALE as int),
    ensures
        0 <= r,
        (r as int) * (r as int) <= x as int,
        (x as int) < (r as int + 1) * (r as int + 1),
        r <= 3_100_000_000_000,
{
    let mut lo: u128 = 0;
    let mut hi: u128 = 3_100_000_000_000;
    proof {
        assert((hi as int) * (hi as int) == 9_610_000_000_000_000_000_000_000);
        assert((FX_MAX as int) * (SCALE as int) < 9_610_000_000_000_000_000_000_000);
    }
    while lo + 1 < hi
        invariant
            lo < hi,
            hi <= 3_100_000_000_000,
            (lo as int) * (lo as int) <= x as int,
            (x as int) < (hi as int) * (hi as int),
        decreases hi - lo,
    {
        let mid: u128 = lo + (hi - lo) / 2;
        proof {
            assert(lo < mid < hi);
            vstd::arithmetic::mul::lemma_mul_upper_bound(
                mid as int,
                3_100_000_000_000,
                mid as int,
                3_100_000_000_000,
            );
        }
        let sq: u128 = mid * mid;
        if sq <= x {
            lo = mid;
        } else {
            hi = mid;
        }
    }
    lo
}

/// Fixed-point square root of a nonnegative scalar, rounded down onto the
/// grid.
pub fn fx_sqrt(a: i64) -> (r: i64)
    requires
        a >= 0,
    ensures
        r as int == fx_sqrt_spec(a as int),
        0 <= r <= 3_100_000_000_000,
{
    proof {
        vstd::arithmetic::mul::lemma_mul_upper_bound(
            a as int,
            FX_MAX as int,
            SCALE as int,
            SCALE as int,
        );
        vstd::arithmetic::mul::lemma_mul_nonnegative(a as int, SCALE as int);
    }
    let x: u128 = (a as u128) * (SCALE as u128);
    let q: u128 = isqrt_wide(x);
    proof {
        lemma_sqrt_floor_is(x as int, q as int);
    }
    q as i64
}

} // verus!
