//! Binary angles: a full revolution is `TURN` units, so angles wrap exactly.

use vstd::prelude::*;

verus! {

/// Units in one full revolution.
pub const TURN: i64 = 0x1_0000_0000;

/// Units in half a revolution.
pub const HALF_TURN: i64 = 0x8000_0000;

/// Units in a quarter of a revolution.
pub const QUARTER_TURN: i64 = 0x4000_0000;

/// The representative of `a` in `[-HALF_TURN, HALF_TURN)` that differs from
/// `a` by a whole number of revolutions.
pub open spec fn wrap_angle(a: int) -> int {
    (a + HALF_TURN) % (TURN as int) - HALF_TURN
}

/// Whether `a` is the representative that `wrap_angle` picks.
pub open spec fn is_wrapped(a: int) -> bool {
    -HALF_TURN <= a < HALF_TURN
}

/// Wraps any angle into `[-HALF_TURN, HALF_TURN)`.
pub fn wrap(a: i128) -> (r: i64)
    ensures
        r == wrap_angle(a as int),
        is_wrapped(r as int),
{
    let m: i128 = a % 0x1_0000_0000i128;
    let n: i128 = if m < 0 { m + 0x1_0000_0000i128 } else { m };
    let w: i128 = if n >= 0x8000_0000i128 { n - 0x1_0000_0000i128 } else { n };
    w as i64
}

/// Wrapping lands in the canonical range and leaves a canonical angle alone.
pub proof fn lemma_wrap_canonical(a: int)
    ensures
        is_wrapped(wrap_angle(a)),
        is_wrapped(a) ==> wrap_angle(a) == a,
        wrap_angle(wrap_angle(a)) == wrap_angle(a),
{
}

/// Whole revolutions vanish under wrapping.
pub proof fn lemma_wrap_full_turns(a: int, k: int)
    ensures
        wrap_angle(a + k * TURN) == wrap_angle(a),
{
    vstd::arithmetic::div_mod::lemma_mod_multiples_vanish(k, a + HALF_TURN, TURN as int);
    assert(a + k * TURN + HALF_TURN == TURN * k + (a + HALF_TURN)) by (nonlinear_arith);
}

/// Wrapping an intermediate result does not change a later wrapped sum.
pub proof fn lemma_wrap_absorbs(a: int, b: int)
    ensures
        wrap_angle(wrap_angle(a) + b) == wrap_angle(a + b),
{
    let k = (a + HALF_TURN) / (TURN as int);
    assert(wrap_angle(a) == a - k * TURN) by {
        vstd::arithmetic::div_mod::lemma_fundamental_div_mod(a + HALF_TURN, TURN as int);
    }
    lemma_wrap_full_turns(a + b, -k);
    assert(a + b + (-k) * TURN == a - k * TURN + b) by (nonlinear_arith);
}

} // verus!
