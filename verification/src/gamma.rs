//! The gamma 2.2 transfer curve at fixed-point precision. A gamma-encoded
//! channel value lives on the scale 1024 (so `1.0 == 1024`, and a lit value
//! may reach `2.0 == 2048`); its linear-light image lives on the scale
//! 1048576. Since `2.2 == 11 / 5`, the curve `x ^ 2.2` and its inverse
//! `x ^ (5 / 11)` reduce to integer eleventh powers, fifth powers, and their
//! integer roots.

use vstd::prelude::*;
use crate::math::{
    is_root5, is_root11, lemma_pow5_mono, lemma_pow11_mono, pow5, pow11, pow5_u128, pow11_u128,
    root5, root11, root5_u64, root11_u64,
};
use vstd::arithmetic::div_mod::lemma_div_is_ordered;

verus! {

/// Largest linear-light value: the image of 2048 (`2.0`) under the curve,
/// `floor((2048^11 / 1024) ^ (1/5))`.
pub const GAMMA_MAX: u64 = 4817990;

/// The gamma curve on the fixed-point grid: a channel value `x` on scale 1024
/// maps to `floor((x^11 div 1024) ^ (1/5))`, which is `(x / 1024) ^ 2.2` on
/// scale 1048576, rounded down through exact integer arithmetic.
pub open spec fn pow22_spec(x: int) -> int {
    root5(pow11(x) / 1024)
}

/// The inverse gamma curve on the fixed-point grid: a linear-light value `m`
/// on scale 1048576 maps to `floor((m^5 * 1024) ^ (1/11))`, which is
/// `(m / 1048576) ^ (5/11)` on scale 1024, rounded down through exact integer
/// arithmetic.
pub open spec fn powinv22_spec(m: int) -> int {
    root11(pow5(m) * 1024)
}

/// The concrete powers that bound the fixed-point gamma grid, evaluated in
/// stages so the solver only ever multiplies two literals at a time.
proof fn lemma_pow11_and_root_constants()
    ensures
        pow5(2048) == 36028797018963968,
        pow11(2048) == 2658455991569831745807614120560689152,
        pow11(2048) / 1024 == 2596148429267413814265248164610048,
        pow5(5000000) == 3125000000000000000000000000000000,
        pow5(GAMMA_MAX as int) == 2596148145949662198501000899900000,
        pow5(GAMMA_MAX as int + 1) == 2596150840174041700316404094430951,
        pow5(GAMMA_MAX as int) * 1024 == 2658455701452454091265024921497600000,
        pow5(2049) == 36116843890485249,
        pow11(2049) == 2672769719437237714909813214827010049,
{
    assert(pow5(2048) == 36028797018963968) by (nonlinear_arith);
    assert(pow11(2048) == 2658455991569831745807614120560689152) by (nonlinear_arith);
    assert(pow5(5000000) == 3125000000000000000000000000000000) by (nonlinear_arith);
    assert(pow5(4817990) == 2596148145949662198501000899900000) by (nonlinear_arith);
    assert(pow5(4817991) == 2596150840174041700316404094430951) by (nonlinear_arith);
    assert(pow5(2049) == 36116843890485249) by (nonlinear_arith);
    assert(pow11(2049) == 2672769719437237714909813214827010049) by (nonlinear_arith);
}

/// Applies the gamma curve `x ^ 2.2` to a fixed-point channel value.
pub fn pow22(x: u32) -> (g: u64)
    requires
        x <= 2048,
    ensures
        g == pow22_spec(x as int),
        is_root5(pow11(x as int) / 1024, g as int),
        g <= GAMMA_MAX,
{
    let p: u128 = pow11_u128(x as u64);
    let n5: u128 = p / 1024;
    proof {
        lemma_pow11_and_root_constants();
        lemma_pow11_mono(x as int, 2048);
        lemma_div_is_ordered(p as int, pow11(2048), 1024);
    }
    let g: u64 = root5_u64(n5);
    proof {
        if g > GAMMA_MAX {
            lemma_pow5_mono(GAMMA_MAX as int + 1, g as int);
        }
    }
    g
}

/// Applies the inverse gamma curve `m ^ (5/11)` to a linear-light value.
pub fn powinv22(m: u64) -> (x: u32)
    requires
        m <= GAMMA_MAX,
    ensures
        x == powinv22_spec(m as int),
        is_root11(pow5(m as int) * 1024, x as int),
        x <= 2048,
{
    let p5: u128 = pow5_u128(m);
    proof {
        lemma_pow11_and_root_constants();
        lemma_pow5_mono(m as int, GAMMA_MAX as int);
    }
    let n: u128 = p5 * 1024;
    let x: u64 = root11_u64(n);
    x as u32
}

} // verus!
