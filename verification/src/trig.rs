//! Fixed-point trigonometry for ray directions.
//!
//! Angles are measured in turn units: 65536 units make one full turn, so
//! angle arithmetic wraps naturally modulo a full circle. Sine and cosine
//! are integer rational approximations (Bhaskara I's formula) scaled so that
//! 4096 stands for 1; the spec functions below are their exact definitions.

use vstd::arithmetic::div_mod::{lemma_div_is_ordered, lemma_div_multiples_vanish};
use vstd::prelude::*;

verus! {

/// Angle units in one full turn.
pub const TURN: u32 = 65536;

/// Angle units in half a turn.
pub const HALF_TURN: u32 = 32768;

/// Angle units in a quarter turn.
pub const QUARTER_TURN: u32 = 16384;

/// Fixed-point scale of sine and cosine: this value stands for 1.
pub const TRIG_ONE: i32 = 4096;

/// Sine over the first half turn, `a` in `[0, 32768]`, scaled by 4096:
/// Bhaskara I's rational approximation
/// `16·p·4096 / (5·32768² − 4·p)` with `p = a·(32768 − a)`.
pub open spec fn spec_sin_half(a: int) -> int {
    let p: int = a * (32768 - a);
    (16 * p * 4096) / (5 * 32768 * 32768 - 4 * p)
}

/// Sine of an angle in `[0, 65536)` turn units, scaled by 4096.
pub open spec fn spec_sin(a: int) -> int {
    if a < 32768 {
        spec_sin_half(a)
    } else {
        -spec_sin_half(a - 32768)
    }
}

/// Cosine of an angle in `[0, 65536)` turn units, scaled by 4096: the sine a
/// quarter turn later.
pub open spec fn spec_cos(a: int) -> int {
    spec_sin((a + 16384) % 65536)
}

fn sin_half(a: u32) -> (r: u32)
    requires
        a <= 32768,
    ensures
        r == spec_sin_half(a as int),
        r <= 4096,
{
    proof {
        assert(a * (32768 - a) <= 268435456) by (nonlinear_arith)
            requires
                0 <= a <= 32768,
        ;
    }
    let p: u64 = (a as u64) * ((32768 - a) as u64);
    let num: u64 = 16 * p * 4096;
    let den: u64 = 5368709120 - 4 * p;
    let q: u64 = num / den;
    proof {
        lemma_div_multiples_vanish(4096, den as int);
        lemma_div_is_ordered(num as int, 4096 * den as int, den as int);
    }
    q as u32
}

/// Sine of an angle in turn units, scaled by 4096.
pub fn sin_turn(a: u16) -> (r: i32)
    ensures
        r == spec_sin(a as int),
        -4096 <= r <= 4096,
{
    if a < 32768 {
        sin_half(a as u32) as i32
    } else {
        -(sin_half(a as u32 - 32768) as i32)
    }
}

/// Cosine of an angle in turn units, scaled by 4096.
pub fn cos_turn(a: u16) -> (r: i32)
    ensures
        r == spec_cos(a as int),
        -4096 <= r <= 4096,
{
    let b: u32 = (a as u32 + 16384) % 65536;
    sin_turn(b as u16)
}

} // verus!
