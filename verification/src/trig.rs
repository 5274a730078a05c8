//! Fixed-point circle functions.  Angles are milliradians, one turn is
//! 6283; results are scaled by 1000.  The half-turn approximation is the
//! classical rational one: sin t == 16t(pi - t) / (5 pi^2 - 4t(pi - t)).

use vstd::prelude::*;
use crate::geom::remu;
use vstd::arithmetic::div_mod::{
    lemma_add_mod_noop, lemma_div_is_ordered, lemma_div_pos_is_pos,
    lemma_fundamental_div_mod, lemma_fundamental_div_mod_converse, lemma_mod_bound,
    lemma_small_mod,
};

verus! {

/// One full turn in milliradians.
pub const TAU_MRAD: i64 = 6283;

/// Half a turn in milliradians.
pub const HALF_TURN_MRAD: i64 = 3142;

/// Quarter of a turn in milliradians.
pub const QUARTER_TURN_MRAD: i64 = 1571;

/// The rational half-turn approximation, for 0 <= x <= 3142.
pub open spec fn half_turn_sine(x: int) -> int {
    (16000 * (x * (3142 - x))) / (49_348_000 - 4 * (x * (3142 - x)))
}

/// Scaled sine of an angle in milliradians.
pub open spec fn sin_mrad_spec(x: int) -> int {
    let m = x % 6283;
    if m < 3142 {
        half_turn_sine(m)
    } else {
        -half_turn_sine(m - 3142)
    }
}

/// Scaled cosine: the sine a quarter turn ahead.
pub open spec fn cos_mrad_spec(x: int) -> int {
    sin_mrad_spec(x + 1571)
}

/// Reduces an angle into [0, one turn).
pub fn wrap_angle(x: i64) -> (r: i64)
    requires
        -4_000_000_000_000_000_000 <= x <= 4_000_000_000_000_000_000,
    ensures
        r == x % 6283,
        0 <= r < 6283,
{
    if x >= 0 {
        remu(x, 6283)
    } else {
        let p: i64 = remu(-x, 6283);
        proof {
            let q = (-(x as int)) / 6283;
            lemma_fundamental_div_mod(-(x as int), 6283);
            if p == 0 {
                lemma_fundamental_div_mod_converse(x as int, 6283, -q, 0);
            } else {
                lemma_fundamental_div_mod_converse(x as int, 6283, -q - 1, 6283 - p);
            }
        }
        if p == 0 {
            0
        } else {
            6283 - p
        }
    }
}

/// The half-turn approximation on [0, 3142], scaled by 1000.
fn half_turn_sine_exec(x: i64) -> (r: i64)
    requires
        0 <= x <= 3142,
    ensures
        r == half_turn_sine(x as int),
        0 <= r <= 1000,
{
    proof {
        assert(0 <= (x as int) * (3142 - x as int) <= 2_468_041) by (nonlinear_arith)
            requires 0 <= x as int <= 3142int;
    }
    let t: i64 = x * (3142 - x);
    let num: i64 = 16000 * t;
    let den: i64 = 49_348_000 - 4 * t;
    let q: u64 = (num as u64) / (den as u64);
    proof {
        lemma_div_pos_is_pos(num as int, den as int);
        assert(num < 1001 * den);
        lemma_div_is_ordered(num as int, 1001 * den - 1, den as int);
        lemma_fundamental_div_mod_converse(1001 * (den as int) - 1, den as int, 1000, den as int - 1);
    }
    q as i64
}

/// Scaled sine of an angle in milliradians.
pub fn sin_mrad(x: i64) -> (r: i64)
    requires
        -4_000_000_000_000_000_000 <= x <= 4_000_000_000_000_000_000,
    ensures
        r == sin_mrad_spec(x as int),
        -1000 <= r <= 1000,
{
    let m: i64 = wrap_angle(x);
    if m < 3142 {
        half_turn_sine_exec(m)
    } else {
        -half_turn_sine_exec(m - 3142)
    }
}

/// Scaled cosine of an angle in milliradians.
pub fn cos_mrad(x: i64) -> (r: i64)
    requires
        -4_000_000_000_000_000_000 <= x <= 4_000_000_000_000_000_000,
    ensures
        r == cos_mrad_spec(x as int),
        -1000 <= r <= 1000,
{
    let m: i64 = wrap_angle(x);
    let r: i64 = sin_mrad(m + 1571);
    proof {
        lemma_mod_bound(x as int, 6283);
        lemma_small_mod(1571nat, 6283nat);
        lemma_add_mod_noop(x as int, 1571, 6283);
        assert((m + 1571) % 6283 == (x + 1571) % 6283);
    }
    r
}

} // verus!
