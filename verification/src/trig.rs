//! Integer sine and cosine of binary angles.
//!
//! Values are scaled by `ONE`. Over a half turn the sine is taken as a
//! rational function of `w = 4 x (pi - x) / pi^2`, the arc product as a share
//! of its peak: `w (596 + 101 w) / (759 - 62 w)`. This refines Bhaskara's
//! `4 w / (5 - w)`. It is exact at every quarter turn and keeps all the
//! symmetries of the sine.

use vstd::prelude::*;
use vstd::arithmetic::div_mod::{
    lemma_div_is_ordered,
    lemma_div_is_ordered_by_denominator,
    lemma_fundamental_div_mod_converse,
};
use crate::angle::{HALF_TURN, QUARTER_TURN, TURN};

verus! {

/// The fixed-point value of 1.
pub const ONE: i64 = 0x4000_0000;

/// The arc share at its peak.
pub const WHOLE: i64 = 0x1_0000_0000;

/// The mark that the sine and the cosine cannot both fall below at once:
/// the half wave an eighth of a turn in.
pub const STRONG: i64 = 759_248_495;

/// The half wave two thirds of the way up the first quarter turn, where the
/// sine a third of the way up has just passed a half.
pub const STEEP: i64 = 929_879_440;

/// Four times the product of the two arcs that `a` cuts a half turn into.
/// It peaks at `HALF_TURN * HALF_TURN`, in the middle.
pub open spec fn arc_product(a: int) -> int {
    4 * a * (HALF_TURN - a)
}

/// The arc product as a share of its peak, scaled by `WHOLE`, rounded down.
pub open spec fn arc_share(a: int) -> int {
    arc_product(a) / 0x4000_0000
}

/// The rational function of the arc share `w` that stands for the sine,
/// scaled by `ONE`, rounded down.
pub open spec fn wave_of_share(w: int) -> int {
    (w * (596 * WHOLE + 101 * w)) / (4 * (759 * WHOLE - 62 * w))
}

/// The sine over the first half turn, `0 <= a <= HALF_TURN`.
#[verifier::opaque]
pub open spec fn half_wave(a: int) -> int {
    wave_of_share(arc_share(a))
}

/// The sine of `angle`, scaled by `ONE`.
pub open spec fn sine(angle: int) -> int {
    let a = angle % (TURN as int);
    if a <= HALF_TURN {
        half_wave(a)
    } else {
        -half_wave(a - HALF_TURN)
    }
}

/// The cosine of `angle`, scaled by `ONE`: the sine a quarter turn ahead.
pub open spec fn cosine(angle: int) -> int {
    sine(angle + QUARTER_TURN)
}

/// The arc share is the same from either end of the half turn.
pub proof fn lemma_arc_share_mirror(a: int)
    ensures
        arc_share(HALF_TURN - a) == arc_share(a),
{
    let h: int = HALF_TURN as int;
    assert(4 * (h - a) * (h - (h - a)) == 4 * a * (h - a)) by (nonlinear_arith);
}

/// The arc share lies between zero and `WHOLE`, and is at least 7 strictly
/// inside the half turn.
pub proof fn lemma_arc_share_range(a: int)
    requires
        0 <= a <= HALF_TURN,
    ensures
        0 <= arc_share(a) <= WHOLE,
        0 < a < HALF_TURN ==> arc_share(a) >= 7,
{
    let h: int = 0x8000_0000;
    assert(HALF_TURN == h);
    assert(0 <= 4 * a * (h - a)) by (nonlinear_arith)
        requires
            0 <= a <= h,
    ;
    assert(h * h - 4 * a * (h - a) == (h - 2 * a) * (h - 2 * a)) by (nonlinear_arith);
    assert((h - 2 * a) * (h - 2 * a) >= 0) by (nonlinear_arith);
    assert(h * h == 0x4000_0000_0000_0000);
    if 0 < a < h {
        assert(a * (h - a) >= h - 1) by (nonlinear_arith)
            requires
                1 <= a <= h - 1,
        ;
        assert(4 * a * (h - a) == 4 * (a * (h - a))) by (nonlinear_arith);
    }
}

/// The arc share grows up to the middle of the half turn.
pub proof fn lemma_arc_share_grows(a: int, b: int)
    requires
        0 <= a <= b <= QUARTER_TURN,
    ensures
        arc_share(a) <= arc_share(b),
{
    let h: int = HALF_TURN as int;
    assert(4 * b * (h - b) - 4 * a * (h - a) == 4 * (b - a) * (h - a - b)) by (nonlinear_arith);
    assert(4 * (b - a) * (h - a - b) >= 0) by (nonlinear_arith)
        requires
            b - a >= 0,
            h - a - b >= 0,
    ;
}

/// The wave of a share stays between 0 and `ONE`, is at least 1 from a
/// share of 7 on, and does not fall as the share grows.
pub proof fn lemma_wave_of_share(v: int, w: int)
    requires
        0 <= v <= w <= WHOLE,
    ensures
        0 <= wave_of_share(v) <= wave_of_share(w) <= ONE,
        w >= 7 ==> wave_of_share(w) >= 1,
{
    let full: int = 0x1_0000_0000;
    assert(WHOLE == full && ONE * 4 == full);
    let nv: int = v * (596 * full + 101 * v);
    let nw: int = w * (596 * full + 101 * w);
    let dv: int = 4 * (759 * full - 62 * v);
    let dw: int = 4 * (759 * full - 62 * w);
    assert(0 <= nv <= nw) by (nonlinear_arith)
        requires
            0 <= v <= w,
            full > 0,
            nv == v * (596 * full + 101 * v),
            nw == w * (596 * full + 101 * w),
    ;
    assert(0 < dw <= dv);
    // At the peak the quotient is exactly ONE; below it, less.
    assert(full * (759 * full - 62 * w) - w * (596 * full + 101 * w) == (full - w) * (759 * full
        + 101 * w)) by (nonlinear_arith);
    assert((full - w) * (759 * full + 101 * w) >= 0) by (nonlinear_arith)
        requires
            0 <= w <= full,
    ;
    assert(ONE * dw == full * (759 * full - 62 * w)) by (nonlinear_arith)
        requires
            ONE * 4 == full,
            dw == 4 * (759 * full - 62 * w),
    ;
    assert(nw <= ONE * dw);
    lemma_div_is_ordered(0, nv, dv);
    lemma_div_is_ordered(nv, nw, dv);
    lemma_div_is_ordered_by_denominator(nw, dw, dv);
    lemma_div_is_ordered(nw, ONE * dw, dw);
    lemma_fundamental_div_mod_converse(ONE * dw, dw, ONE as int, 0);
    if w >= 7 {
        assert(nw >= 7 * (596 * full)) by (nonlinear_arith)
            requires
                w >= 7,
                full > 0,
                nw == w * (596 * full + 101 * w),
        ;
        assert(nw >= dw);
        lemma_div_is_ordered(dw, nw, dw);
        lemma_fundamental_div_mod_converse(dw, dw, 1, 0);
    }
}

/// The half wave stays between 0 and `ONE`, and is positive strictly inside
/// the half turn.
pub proof fn lemma_half_wave_range(a: int)
    requires
        0 <= a <= HALF_TURN,
    ensures
        0 <= half_wave(a) <= ONE,
        0 < a < HALF_TURN ==> half_wave(a) >= 1,
{
    reveal(half_wave);
    lemma_arc_share_range(a);
    lemma_wave_of_share(arc_share(a), arc_share(a));
}

/// The half wave is the same from either end of the half turn.
pub proof fn lemma_half_wave_mirror(a: int)
    ensures
        half_wave(HALF_TURN - a) == half_wave(a),
{
    reveal(half_wave);
    lemma_arc_share_mirror(a);
}

/// The half wave rises over the first quarter turn.
pub proof fn lemma_half_wave_rises(a: int, b: int)
    requires
        0 <= a <= b <= QUARTER_TURN,
    ensures
        half_wave(a) <= half_wave(b),
{
    reveal(half_wave);
    lemma_arc_share_range(a);
    lemma_arc_share_range(b);
    lemma_arc_share_grows(a, b);
    lemma_wave_of_share(arc_share(a), arc_share(b));
}

/// The half wave at its ends, in its middle, and halfway up.
pub proof fn lemma_half_wave_marks()
    ensures
        half_wave(0) == 0,
        half_wave(QUARTER_TURN as int) == ONE,
        half_wave(HALF_TURN as int) == 0,
        half_wave(QUARTER_TURN / 2) == STRONG,
{
    reveal(half_wave);
    let full: int = 0x1_0000_0000;
    assert(WHOLE == full);
    assert(arc_product(0) == 0);
    assert(arc_product(HALF_TURN as int) == 0);
    assert(arc_product(QUARTER_TURN as int) == 0x4000_0000_0000_0000int);
    assert(arc_product(QUARTER_TURN / 2) == 0x3000_0000_0000_0000int);
    assert(arc_share(0) == 0 && arc_share(HALF_TURN as int) == 0);
    assert(arc_share(QUARTER_TURN as int) == full);
    let high: int = 0xC000_0000;
    assert(arc_share(QUARTER_TURN / 2) == high);
    lemma_fundamental_div_mod_converse(0, 4 * (759 * full), 0, 0);
    lemma_fundamental_div_mod_converse(
        full * (596 * full + 101 * full),
        4 * (759 * full - 62 * full),
        0x4000_0000,
        0,
    );
    lemma_fundamental_div_mod_converse(
        high * (596 * full + 101 * high),
        4 * (759 * full - 62 * high),
        759_248_495,
        283_467_841_536,
    );
}

/// The half wave a third and two thirds of the way up the first quarter
/// turn.
pub proof fn lemma_half_wave_thirds()
    ensures
        half_wave(357_913_941) == 536_880_059,
        half_wave(715_827_883) == STEEP,
{
    reveal(half_wave);
    let full: int = 0x1_0000_0000;
    assert(WHOLE == full);
    assert(arc_product(357_913_941) == 2_562_047_786_106_341_148int);
    assert(arc_product(715_827_883) == 4_099_276_461_778_781_980int);
    let low: int = 2_386_092_940;
    let high: int = 3_817_748_708;
    assert(arc_share(357_913_941) == low);
    assert(arc_share(715_827_883) == high);
    lemma_fundamental_div_mod_converse(
        low * (596 * full + 101 * low),
        4 * (759 * full - 62 * low),
        536_880_059,
        1_986_072_676_016,
    );
    lemma_fundamental_div_mod_converse(
        high * (596 * full + 101 * high),
        4 * (759 * full - 62 * high),
        929_879_440,
        7_993_355_762_512,
    );
}

/// Where the sine is short of a half, the cosine is long: over the first
/// quarter turn the half wave reaches a half, or its mirror image reaches
/// `STEEP`.
pub proof fn lemma_low_sine_high_cosine(a: int)
    requires
        0 <= a <= QUARTER_TURN,
    ensures
        half_wave(a) >= ONE / 2 || half_wave(QUARTER_TURN - a) >= STEEP,
{
    lemma_half_wave_thirds();
    if a >= 357_913_941 {
        lemma_half_wave_rises(357_913_941, a);
    } else {
        lemma_half_wave_rises(715_827_883, QUARTER_TURN - a);
    }
}

/// The sine and the cosine of a pitch short of the poles, by the half wave.
pub proof fn lemma_pitch_waves(p: int)
    requires
        -QUARTER_TURN < p < QUARTER_TURN,
    ensures
        sine(p) == (if p >= 0 { half_wave(p) } else { -half_wave(-p) }),
        cosine(p) == half_wave(QUARTER_TURN - (if p >= 0 { p } else { -p })),
{
    if p >= 0 {
        lemma_half_wave_mirror(p + QUARTER_TURN);
    } else {
        lemma_half_wave_mirror(-p);
    }
}

/// The sine stays between `-ONE` and `ONE`.
pub proof fn lemma_sine_range(angle: int)
    ensures
        -ONE <= sine(angle) <= ONE,
        -ONE <= cosine(angle) <= ONE,
{
    let a: int = angle % (TURN as int);
    if a <= HALF_TURN {
        lemma_half_wave_range(a);
    } else {
        lemma_half_wave_range(a - HALF_TURN);
    }
    let b: int = (angle + QUARTER_TURN) % (TURN as int);
    if b <= HALF_TURN {
        lemma_half_wave_range(b);
    } else {
        lemma_half_wave_range(b - HALF_TURN);
    }
}

/// Whole revolutions do not change the sine or the cosine.
pub proof fn lemma_sine_full_turns(angle: int, k: int)
    ensures
        sine(angle + k * TURN) == sine(angle),
        cosine(angle + k * TURN) == cosine(angle),
{
    vstd::arithmetic::div_mod::lemma_mod_multiples_vanish(k, angle, TURN as int);
    vstd::arithmetic::div_mod::lemma_mod_multiples_vanish(k, angle + QUARTER_TURN, TURN as int);
    assert(angle + k * TURN == TURN * k + angle) by (nonlinear_arith);
    assert(angle + k * TURN + QUARTER_TURN == TURN * k + (angle + QUARTER_TURN))
        by (nonlinear_arith);
}

/// Half a turn on flips the sign of the sine and of the cosine.
pub proof fn lemma_sine_half_turn(angle: int)
    ensures
        sine(angle + HALF_TURN) == -sine(angle),
        cosine(angle + HALF_TURN) == -cosine(angle),
{
    lemma_half_wave_marks();
}

/// The sine is odd and the cosine is even.
pub proof fn lemma_sine_odd(angle: int)
    ensures
        sine(-angle) == -sine(angle),
        cosine(-angle) == cosine(angle),
{
    lemma_sine_mirror(angle);
    lemma_sine_half_turn(-angle);
    lemma_sine_mirror(angle + QUARTER_TURN);
}

/// The sine reads the same backwards from half a turn.
pub proof fn lemma_sine_mirror(angle: int)
    ensures
        sine(HALF_TURN - angle) == sine(angle),
{
    lemma_half_wave_marks();
    let t: int = TURN as int;
    let a: int = angle % t;
    let m: int = (HALF_TURN - angle) % t;
    assert(m == (if a <= HALF_TURN { HALF_TURN - a } else { HALF_TURN + t - a }));
    if a <= HALF_TURN {
        lemma_half_wave_mirror(a);
    } else {
        lemma_half_wave_mirror(a - HALF_TURN);
    }
}

/// The sine and the cosine at the four quarter turns.
pub proof fn lemma_quarter_turns()
    ensures
        sine(0) == 0 && cosine(0) == ONE,
        sine(QUARTER_TURN as int) == ONE && cosine(QUARTER_TURN as int) == 0,
        sine(HALF_TURN as int) == 0 && cosine(HALF_TURN as int) == -ONE,
        sine(-QUARTER_TURN) == -ONE && cosine(-QUARTER_TURN) == 0,
{
    lemma_half_wave_marks();
}

/// Strictly between a quarter turn down and a quarter turn up, the cosine
/// is positive, and it does not rise as the angle moves away from zero.
pub proof fn lemma_cosine_of_pitch(a: int, b: int)
    requires
        0 <= a <= b < QUARTER_TURN,
    ensures
        1 <= cosine(b) <= cosine(a),
        cosine(-a) == cosine(a),
        cosine(-b) == cosine(b),
{
    lemma_sine_odd(a);
    lemma_sine_odd(b);
    lemma_half_wave_range(QUARTER_TURN - b);
    lemma_half_wave_mirror(QUARTER_TURN - a);
    lemma_half_wave_mirror(QUARTER_TURN - b);
    lemma_half_wave_rises(QUARTER_TURN - b, QUARTER_TURN - a);
}

/// At every angle the sine or the cosine reaches `STRONG` in magnitude.
pub proof fn lemma_strong_component(angle: int)
    ensures
        sine(angle) >= STRONG || sine(angle) <= -STRONG || cosine(angle) >= STRONG || cosine(
            angle,
        ) <= -STRONG,
{
    lemma_half_wave_marks();
    let eighth: int = QUARTER_TURN / 2;
    let a: int = angle % (TURN as int);
    // Fold the angle into the first quarter turn: `q` from the nearest zero
    // of the sine, `QUARTER_TURN - q` from the nearest zero of the cosine.
    let r: int = if a <= HALF_TURN { a } else { a - HALF_TURN };
    let q: int = if r <= QUARTER_TURN { r } else { HALF_TURN - r };
    lemma_half_wave_mirror(r);
    assert(half_wave(r) == half_wave(q));
    let b: int = (angle + QUARTER_TURN) % (TURN as int);
    let rb: int = if b <= HALF_TURN { b } else { b - HALF_TURN };
    lemma_half_wave_mirror(rb);
    assert(rb == QUARTER_TURN - q || rb == HALF_TURN - (QUARTER_TURN - q));
    assert(half_wave(rb) == half_wave(QUARTER_TURN - q));
    if q >= eighth {
        lemma_half_wave_rises(eighth, q);
    } else {
        lemma_half_wave_rises(eighth, QUARTER_TURN - q);
    }
}

/// The half wave at `a`.
fn half(a: i64) -> (s: i64)
    requires
        0 <= a <= HALF_TURN,
    ensures
        s == half_wave(a as int),
        0 <= s <= ONE,
{
    proof {
        reveal(half_wave);
        lemma_arc_share_range(a as int);
        lemma_half_wave_range(a as int);
    }
    let x: i128 = a as i128;
    let rest: i128 = HALF_TURN as i128 - x;
    assert(0 <= x * rest <= 0x4000_0000_0000_0000) by (nonlinear_arith)
        requires
            0 <= x <= 0x8000_0000,
            rest == 0x8000_0000 - x,
    ;
    assert(4 * (x * rest) == arc_product(a as int)) by (nonlinear_arith)
        requires
            rest == HALF_TURN - x,
            x == a,
            arc_product(a as int) == 4 * a * (HALF_TURN - a),
    ;
    let w: i128 = (4 * (x * rest)) / 0x4000_0000i128;
    assert(w == arc_share(a as int));
    let full: i128 = WHOLE as i128;
    assert(0 <= w * (596 * full + 101 * w) <= 0x1_0000_0000 * (697 * 0x1_0000_0000))
        by (nonlinear_arith)
        requires
            0 <= w <= 0x1_0000_0000,
            full == 0x1_0000_0000,
    ;
    let n: i128 = w * (596 * full + 101 * w);
    let d: i128 = 4 * (759 * full - 62 * w);
    (n / d) as i64
}

/// The angle's place within one revolution, counted from zero.
fn within_turn(angle: i64) -> (a: i64)
    ensures
        a == (angle as int) % (TURN as int),
        0 <= a < TURN,
{
    let t: i64 = angle % TURN;
    if t < 0 {
        t + TURN
    } else {
        t
    }
}

/// The sine of an angle already reduced to one revolution.
fn sin_within(a: i64) -> (s: i64)
    requires
        0 <= a < TURN,
    ensures
        s == sine(a as int),
        -ONE <= s <= ONE,
{
    if a <= HALF_TURN {
        half(a)
    } else {
        -half(a - HALF_TURN)
    }
}

/// The sine of `angle`, scaled by `ONE`.
pub fn sin(angle: i64) -> (s: i64)
    ensures
        s == sine(angle as int),
        -ONE <= s <= ONE,
{
    sin_within(within_turn(angle))
}

/// The cosine of `angle`, scaled by `ONE`.
pub fn cos(angle: i64) -> (c: i64)
    ensures
        c == cosine(angle as int),
        -ONE <= c <= ONE,
{
    let a: i64 = within_turn(angle);
    let b: i64 = if a >= TURN - QUARTER_TURN {
        a - (TURN - QUARTER_TURN)
    } else {
        a + QUARTER_TURN
    };
    sin_within(b)
}

} // verus!
