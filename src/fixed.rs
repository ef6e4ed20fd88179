//! Q16.16 fixed-point arithmetic shared by every stage of the pipeline.
use vstd::prelude::*;

verus! {

/// One unit in Q16.16 fixed point.
pub const ONE: i32 = 65536;

/// Half a unit in Q16.16 fixed point (the offset of a pixel centre).
pub const HALF: i32 = 32768;

/// Saturates a mathematical integer into the `i32` range.
pub open spec fn clamp_i32(v: int) -> int {
    if v > i32::MAX {
        i32::MAX as int
    } else if v < i32::MIN {
        i32::MIN as int
    } else {
        v
    }
}

/// The floor of the real quotient `a / b` for any non-zero divisor.
pub open spec fn div_floor(a: int, b: int) -> int {
    if b > 0 {
        a / b
    } else {
        (-a) / (-b)
    }
}

/// A product of two bounded magnitudes is bounded by the product of the bounds.
pub proof fn lemma_mul_bound(a: int, b: int, ba: int, bb: int)
    requires
        -ba <= a <= ba,
        -bb <= b <= bb,
    ensures
        -(ba * bb) <= a * b <= ba * bb,
        0 <= ba * bb,
{
    assert(-(ba * bb) <= a * b <= ba * bb && 0 <= ba * bb) by (nonlinear_arith)
        requires
            -ba <= a <= ba,
            -bb <= b <= bb,
    ;
}

/// Floor division for a positive divisor.
pub fn floor_div(a: i128, b: i128) -> (r: i128)
    requires
        b > 0,
        a > i128::MIN,
    ensures
        r == a / b,
        a >= 0 ==> 0 <= r <= a,
        a < 0 ==> a <= r < 0,
{
    if a >= 0 {
        let q = a / b;
        proof {
            vstd::arithmetic::div_mod::lemma_fundamental_div_mod(a as int, b as int);
            let rem = a as int % b as int;
            assert(0 <= q <= a) by (nonlinear_arith)
                requires
                    a == b * q + rem,
                    0 <= rem < b,
                    b > 0,
                    a >= 0,
            ;
        }
        q
    } else {
        let m = -a - 1;
        let q = m / b;
        proof {
            let r = m as int % b as int;
            vstd::arithmetic::div_mod::lemma_fundamental_div_mod(m as int, b as int);
            assert(a == (-(q as int) - 1) * b + (b - r - 1)) by (nonlinear_arith)
                requires m == -a - 1, m == b * (q as int) + r;
            vstd::arithmetic::div_mod::lemma_fundamental_div_mod_converse(
                a as int,
                b as int,
                -(q as int) - 1,
                b - r - 1,
            );
            assert(0 <= q <= m) by (nonlinear_arith)
                requires
                    m == b * (q as int) + r,
                    0 <= r < b,
                    b > 0,
                    m >= 0,
            ;
        }
        -q - 1
    }
}

/// Floor division for any non-zero divisor.
pub fn floor_div_signed(a: i128, b: i128) -> (r: i128)
    requires
        b != 0,
        a > i128::MIN,
        b > i128::MIN,
    ensures
        r == div_floor(a as int, b as int),
{
    if b > 0 {
        floor_div(a, b)
    } else {
        floor_div(-a, -b)
    }
}

/// Saturates an `i128` into the `i32` range.
pub fn saturate_i32(v: i128) -> (r: i32)
    ensures
        r == clamp_i32(v as int),
{
    if v > i32::MAX as i128 {
        i32::MAX
    } else if v < i32::MIN as i128 {
        i32::MIN
    } else {
        v as i32
    }
}

} // verus!
