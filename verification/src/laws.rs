//! What holds of every frame, whatever the input.

use vstd::prelude::*;
use crate::angle::{
    is_wrapped,
    lemma_wrap_absorbs,
    lemma_wrap_canonical,
    wrap_angle,
    HALF_TURN,
    QUARTER_TURN,
    TURN,
};
use crate::config::{valid_settings, OrbitSettings, ZoomMode};
use crate::decay::lemma_scaled_in_bounds;
use crate::input::{is_saturated, PointerDelta};
use crate::orbit::{
    rotated,
    rotated_all,
    updated,
    valid_orbit,
    zoomed,
    zoomed_all,
    Orbit,
};
use crate::pose::{
    facing,
    offset,
    pose_of,
    toward_zero,
};
use crate::trig::{
    cosine,
    lemma_cosine_of_pitch,
    lemma_low_sine_high_cosine,
    lemma_pitch_waves,
    lemma_quarter_turns,
    lemma_sine_full_turns,
    lemma_sine_half_turn,
    lemma_strong_component,
    sine,
    ONE,
    STEEP,
    STRONG,
};

verus! {

/// One pointer sample keeps a valid orbit valid and touches neither the
/// radius nor the target.
pub proof fn lemma_rotated_valid(o: Orbit, c: OrbitSettings, d: PointerDelta)
    requires
        valid_settings(c),
        valid_orbit(o, c),
    ensures
        valid_orbit(rotated(o, c, d), c),
        rotated(o, c, d).radius == o.radius,
        rotated(o, c, d).target == o.target,
{
    lemma_wrap_canonical(o.yaw - d.dx * c.rotate_sensitivity);
}

/// One scroll sample keeps a valid orbit valid and touches neither angle
/// nor the target.
pub proof fn lemma_zoomed_valid(o: Orbit, c: OrbitSettings, s: i64)
    requires
        valid_settings(c),
        valid_orbit(o, c),
    ensures
        valid_orbit(zoomed(o, c, s), c),
        zoomed(o, c, s).yaw == o.yaw,
        zoomed(o, c, s).pitch == o.pitch,
        zoomed(o, c, s).target == o.target,
{
    if c.zoom_mode == ZoomMode::Multiplicative {
        lemma_scaled_in_bounds(o.radius, c, s as int);
    }
}

/// Whatever pointer samples arrive while the button is held, the pitch
/// stays within `max_pitch` of level, and the orbit stays valid.
pub proof fn lemma_rotation_keeps_pitch_bounded(o: Orbit, c: OrbitSettings, ds: Seq<PointerDelta>)
    requires
        valid_settings(c),
        valid_orbit(o, c),
    ensures
        -c.max_pitch <= rotated_all(o, c, ds).pitch <= c.max_pitch,
        valid_orbit(rotated_all(o, c, ds), c),
        rotated_all(o, c, ds).radius == o.radius,
        rotated_all(o, c, ds).target == o.target,
    decreases ds.len(),
{
    if ds.len() > 0 {
        lemma_rotation_keeps_pitch_bounded(o, c, ds.drop_last());
        lemma_rotated_valid(rotated_all(o, c, ds.drop_last()), c, ds.last());
    }
}

/// Whatever scroll samples arrive, the radius stays within the configured
/// bounds, and the orbit stays valid.
pub proof fn lemma_zoom_keeps_radius_bounded(o: Orbit, c: OrbitSettings, ss: Seq<i64>)
    requires
        valid_settings(c),
        valid_orbit(o, c),
    ensures
        c.radius_min <= zoomed_all(o, c, ss).radius <= c.radius_max,
        valid_orbit(zoomed_all(o, c, ss), c),
        zoomed_all(o, c, ss).yaw == o.yaw,
        zoomed_all(o, c, ss).pitch == o.pitch,
        zoomed_all(o, c, ss).target == o.target,
    decreases ss.len(),
{
    if ss.len() > 0 {
        lemma_zoom_keeps_radius_bounded(o, c, ss.drop_last());
        lemma_zoomed_valid(zoomed_all(o, c, ss.drop_last()), c, ss.last());
    }
}

/// A frame keeps a valid orbit valid and never moves the target.
pub proof fn lemma_update_keeps_orbit_valid(
    o: Orbit,
    c: OrbitSettings,
    ds: Seq<PointerDelta>,
    button: bool,
    ss: Seq<i64>,
)
    requires
        valid_settings(c),
        valid_orbit(o, c),
    ensures
        valid_orbit(updated(o, c, ds, button, ss), c),
        updated(o, c, ds, button, ss).target == o.target,
{
    lemma_rotation_keeps_pitch_bounded(o, c, ds);
    let turned = if button { rotated_all(o, c, ds) } else { o };
    lemma_zoom_keeps_radius_bounded(turned, c, ss);
}

/// A frame without pointer or scroll samples leaves the orbit, and with it
/// the pose, as it was.
pub proof fn lemma_no_input_changes_nothing(o: Orbit, c: OrbitSettings, button: bool)
    ensures
        updated(o, c, Seq::<PointerDelta>::empty(), button, Seq::<i64>::empty()) == o,
        pose_of(updated(o, c, Seq::<PointerDelta>::empty(), button, Seq::<i64>::empty()))
            == pose_of(o),
{
}

/// While the button is up, pointer samples change neither yaw nor pitch,
/// however large they are: the frame ends as if none had arrived.
pub proof fn lemma_button_up_ignores_pointer(
    o: Orbit,
    c: OrbitSettings,
    ds: Seq<PointerDelta>,
    ss: Seq<i64>,
)
    ensures
        updated(o, c, ds, false, ss).yaw == o.yaw,
        updated(o, c, ds, false, ss).pitch == o.pitch,
        updated(o, c, ds, false, ss) == updated(o, c, Seq::<PointerDelta>::empty(), false, ss),
{
    lemma_zoom_keeps_angles(o, c, ss);
}

/// Scroll samples change neither angle nor the target, valid orbit or not.
pub proof fn lemma_zoom_keeps_angles(o: Orbit, c: OrbitSettings, ss: Seq<i64>)
    ensures
        zoomed_all(o, c, ss).yaw == o.yaw,
        zoomed_all(o, c, ss).pitch == o.pitch,
        zoomed_all(o, c, ss).target == o.target,
    decreases ss.len(),
{
    if ss.len() > 0 {
        lemma_zoom_keeps_angles(o, c, ss.drop_last());
    }
}

/// A quotient rounded toward zero is not zero once the numerator is at
/// least as large as the divisor.
proof fn lemma_toward_zero_nonzero(n: int, d: int)
    requires
        d > 0,
        n >= d || n <= -d,
    ensures
        toward_zero(n, d) != 0,
{
    vstd::arithmetic::div_mod::lemma_fundamental_div_mod_converse(d, d, 1, 0);
    if n >= d {
        vstd::arithmetic::div_mod::lemma_div_is_ordered(d, n, d);
    } else {
        vstd::arithmetic::div_mod::lemma_div_is_ordered(d, -n, d);
    }
}

/// The magnitude of a product of three factors is at least the product of
/// lower bounds on their magnitudes.
proof fn lemma_product_magnitude(r: int, a: int, b: int, lr: int, la: int, lb: int)
    requires
        0 <= lr <= r,
        0 <= la,
        0 <= lb,
        a >= la || a <= -la,
        b >= lb || b <= -lb,
    ensures
        r * a * b >= lr * la * lb || r * a * b <= -(lr * la * lb),
{
    let ma: int = if a >= 0 { a } else { -a };
    let mb: int = if b >= 0 { b } else { -b };
    assert(r * ma >= lr * la) by (nonlinear_arith)
        requires
            0 <= lr <= r,
            0 <= la <= ma,
    ;
    assert(r * ma * mb >= lr * la * lb) by (nonlinear_arith)
        requires
            r * ma >= lr * la,
            lr * la >= 0,
            0 <= lb <= mb,
            0 <= lr,
            0 <= la,
    ;
    assert(r * a * b == r * ma * mb || r * a * b == -(r * ma * mb)) by (nonlinear_arith)
        requires
            ma == a || ma == -a,
            mb == b || mb == -b,
    ;
}

/// The direction the camera faces leads exactly from its position to its
/// target and is the spherical displacement reversed. It is not the zero
/// vector, so that it can be normalised, from a radius of two length units
/// on, and at a radius of one where the camera is level on one of the four
/// horizontal axes.
pub proof fn lemma_camera_faces_target(o: Orbit, c: OrbitSettings)
    requires
        valid_settings(c),
        valid_orbit(o, c),
    ensures
        pose_of(o).position.x + facing(pose_of(o)).x == o.target.x,
        pose_of(o).position.y + facing(pose_of(o)).y == o.target.y,
        pose_of(o).position.z + facing(pose_of(o)).z == o.target.z,
        facing(pose_of(o)).x == -offset(o).x,
        facing(pose_of(o)).y == -offset(o).y,
        facing(pose_of(o)).z == -offset(o).z,
        o.radius >= 2 || (o.pitch == 0 && o.yaw % (QUARTER_TURN as int) == 0) ==> (facing(
            pose_of(o),
        ).x != 0 || facing(pose_of(o)).y != 0 || facing(pose_of(o)).z != 0),
{
    let unit: int = 0x4000_0000;
    let strong: int = 759_248_495;
    let steep: int = 929_879_440;
    assert(ONE == unit && STRONG == strong && STEEP == steep);
    let sp: int = sine(o.pitch);
    let cp: int = cosine(o.pitch);
    let sy: int = sine(o.yaw);
    let cy: int = cosine(o.yaw);
    if o.radius >= 2 {
        let level: int = if o.pitch >= 0 { o.pitch } else { -o.pitch };
        lemma_pitch_waves(o.pitch);
        lemma_low_sine_high_cosine(level);
        if sp >= unit / 2 || sp <= -(unit / 2) {
            lemma_product_magnitude(o.radius, sp, 1, 2, unit / 2, 1);
            assert(o.radius * sp * 1 == o.radius * sp) by (nonlinear_arith);
            assert(2 * (unit / 2) * 1 >= unit);
            lemma_toward_zero_nonzero(o.radius * sp, unit);
        } else {
            assert(cp >= steep);
            lemma_strong_component(o.yaw);
            assert(2 * strong * steep >= unit * unit);
            if cy >= strong || cy <= -strong {
                lemma_product_magnitude(o.radius, cy, cp, 2, strong, steep);
                lemma_toward_zero_nonzero(o.radius * cy * cp, unit * unit);
            } else {
                lemma_product_magnitude(o.radius, sy, cp, 2, strong, steep);
                lemma_toward_zero_nonzero(o.radius * sy * cp, unit * unit);
            }
        }
    } else if o.pitch == 0 && o.yaw % (QUARTER_TURN as int) == 0 {
        lemma_quarter_turns();
        assert(cp == unit);
        assert(o.yaw == -HALF_TURN || o.yaw == -QUARTER_TURN || o.yaw == 0 || o.yaw
            == QUARTER_TURN);
        lemma_sine_half_turn(-HALF_TURN as int);
        assert(sine(-HALF_TURN as int) == 0 && cosine(-HALF_TURN as int) == -unit);
        if cy == unit || cy == -unit {
            lemma_product_magnitude(o.radius, cy, cp, 1, unit, unit);
            lemma_toward_zero_nonzero(o.radius * cy * cp, unit * unit);
        } else {
            assert(sy == unit || sy == -unit);
            lemma_product_magnitude(o.radius, sy, cp, 1, unit, unit);
            lemma_toward_zero_nonzero(o.radius * sy * cp, unit * unit);
        }
    }
}

/// No pole is reached: the cosine of a valid pitch is positive, and at
/// least the cosine of the pitch limit.
pub proof fn lemma_pitch_keeps_off_poles(o: Orbit, c: OrbitSettings)
    requires
        valid_settings(c),
        valid_orbit(o, c),
    ensures
        cosine(o.pitch) >= cosine(c.max_pitch as int) >= 1,
{
    let level: int = if o.pitch >= 0 { o.pitch } else { -o.pitch };
    lemma_cosine_of_pitch(level, c.max_pitch as int);
}

/// The camera keeps off the vertical through its target, where looking at
/// the target with the y axis up has no answer: if the radius times the
/// cosine of the pitch limit comes to three length units or more, the
/// horizontal part of the displacement is not zero.
pub proof fn lemma_camera_keeps_off_axis(o: Orbit, c: OrbitSettings)
    requires
        valid_settings(c),
        valid_orbit(o, c),
        o.radius * cosine(c.max_pitch as int) >= 3 * ONE,
    ensures
        offset(o).x != 0 || offset(o).z != 0,
{
    let unit: int = 0x4000_0000;
    let strong: int = 759_248_495;
    assert(ONE == unit && STRONG == strong);
    lemma_pitch_keeps_off_poles(o, c);
    let cp: int = cosine(o.pitch);
    let floor: int = cosine(c.max_pitch as int);
    assert(o.radius * cp >= 3 * unit) by (nonlinear_arith)
        requires
            o.radius * floor >= 3 * unit,
            cp >= floor,
            o.radius >= 0,
    ;
    lemma_strong_component(o.yaw);
    let sy: int = sine(o.yaw);
    let cy: int = cosine(o.yaw);
    let lever: int = o.radius * cp;
    assert(3 * unit * strong >= unit * unit);
    if cy >= strong || cy <= -strong {
        lemma_product_magnitude(lever, cy, 1, 3 * unit, strong, 1);
        assert(lever * cy * 1 == o.radius * cy * cp) by (nonlinear_arith)
            requires
                lever == o.radius * cp,
        ;
        assert(3 * unit * strong * 1 == 3 * unit * strong);
        lemma_toward_zero_nonzero(o.radius * cy * cp, unit * unit);
    } else {
        lemma_product_magnitude(lever, sy, 1, 3 * unit, strong, 1);
        assert(lever * sy * 1 == o.radius * sy * cp) by (nonlinear_arith)
            requires
                lever == o.radius * cp,
        ;
        assert(3 * unit * strong * 1 == 3 * unit * strong);
        lemma_toward_zero_nonzero(o.radius * sy * cp, unit * unit);
    }
}

/// The horizontal motion of the samples that count, summed.
pub open spec fn total_dx(ds: Seq<PointerDelta>) -> int
    decreases ds.len(),
{
    if ds.len() == 0 {
        0
    } else if ds.last().usable() {
        total_dx(ds.drop_last()) + ds.last().dx
    } else {
        total_dx(ds.drop_last())
    }
}

/// Yaw has no bound of its own: after any drag it is the starting yaw less
/// the whole horizontal motion times the sensitivity, brought back into the
/// canonical range once. Wrapping along the way loses nothing.
pub proof fn lemma_yaw_is_wrapped_total(o: Orbit, c: OrbitSettings, ds: Seq<PointerDelta>)
    requires
        is_wrapped(o.yaw),
    ensures
        rotated_all(o, c, ds).yaw == wrap_angle(o.yaw - total_dx(ds) * c.rotate_sensitivity),
    decreases ds.len(),
{
    if ds.len() == 0 {
        lemma_wrap_canonical(o.yaw);
    } else {
        let before = ds.drop_last();
        lemma_yaw_is_wrapped_total(o, c, before);
        if ds.last().usable() {
            let k: int = c.rotate_sensitivity as int;
            let dx: int = ds.last().dx as int;
            lemma_wrap_absorbs(o.yaw - total_dx(before) * k, -(dx * k));
            assert(o.yaw - total_dx(before) * k + (-(dx * k)) == o.yaw - (total_dx(before) + dx)
                * k) by (nonlinear_arith);
        }
    }
}

/// Wrapping an angle changes neither its sine nor its cosine, so the pose
/// does not depend on which representative of the yaw is kept.
pub proof fn lemma_wrap_keeps_direction(a: int)
    ensures
        sine(wrap_angle(a)) == sine(a),
        cosine(wrap_angle(a)) == cosine(a),
{
    let k: int = (a + HALF_TURN) / (TURN as int);
    vstd::arithmetic::div_mod::lemma_fundamental_div_mod(a + HALF_TURN, TURN as int);
    assert(wrap_angle(a) == a + (-k) * TURN) by (nonlinear_arith)
        requires
            a + HALF_TURN == TURN * k + (a + HALF_TURN) % (TURN as int),
            wrap_angle(a) == (a + HALF_TURN) % (TURN as int) - HALF_TURN,
    ;
    lemma_sine_full_turns(a, -k);
}

/// Turning reads and writes the angles only: the radius and the target
/// pass through, and the angles that come out do not depend on them.
pub proof fn lemma_rotation_is_blind_to_radius(
    o: Orbit,
    p: Orbit,
    c: OrbitSettings,
    ds: Seq<PointerDelta>,
)
    requires
        o.yaw == p.yaw,
        o.pitch == p.pitch,
    ensures
        rotated_all(o, c, ds).yaw == rotated_all(p, c, ds).yaw,
        rotated_all(o, c, ds).pitch == rotated_all(p, c, ds).pitch,
        rotated_all(o, c, ds).radius == o.radius,
        rotated_all(o, c, ds).target == o.target,
    decreases ds.len(),
{
    if ds.len() > 0 {
        lemma_rotation_is_blind_to_radius(o, p, c, ds.drop_last());
    }
}

/// Zooming reads and writes the radius only: the radius that comes out
/// does not depend on the angles or the target.
pub proof fn lemma_zoom_is_blind_to_angles(o: Orbit, p: Orbit, c: OrbitSettings, ss: Seq<i64>)
    requires
        o.radius == p.radius,
    ensures
        zoomed_all(o, c, ss).radius == zoomed_all(p, c, ss).radius,
    decreases ss.len(),
{
    if ss.len() > 0 {
        lemma_zoom_is_blind_to_angles(o, p, c, ss.drop_last());
    }
}

/// Pointer samples applied in two batches end where the same samples end
/// in one.
pub proof fn lemma_rotation_batches(
    o: Orbit,
    c: OrbitSettings,
    first: Seq<PointerDelta>,
    second: Seq<PointerDelta>,
)
    ensures
        rotated_all(rotated_all(o, c, first), c, second) == rotated_all(o, c, first + second),
    decreases second.len(),
{
    if second.len() == 0 {
        assert(first + second == first);
    } else {
        lemma_rotation_batches(o, c, first, second.drop_last());
        assert((first + second).drop_last() == first + second.drop_last());
        assert((first + second).last() == second.last());
    }
}

/// Scroll samples applied in two batches end where the same samples end in
/// one.
pub proof fn lemma_zoom_batches(o: Orbit, c: OrbitSettings, first: Seq<i64>, second: Seq<i64>)
    ensures
        zoomed_all(zoomed_all(o, c, first), c, second) == zoomed_all(o, c, first + second),
    decreases second.len(),
{
    if second.len() == 0 {
        assert(first + second == first);
    } else {
        lemma_zoom_batches(o, c, first, second.drop_last());
        assert((first + second).drop_last() == first + second.drop_last());
        assert((first + second).last() == second.last());
    }
}

/// How the host cuts a stream of samples into frames does not matter: two
/// frames under the same button state end where one frame with all their
/// samples ends.
pub proof fn lemma_frames_compose(
    o: Orbit,
    c: OrbitSettings,
    button: bool,
    ds1: Seq<PointerDelta>,
    ss1: Seq<i64>,
    ds2: Seq<PointerDelta>,
    ss2: Seq<i64>,
)
    ensures
        updated(updated(o, c, ds1, button, ss1), c, ds2, button, ss2) == updated(
            o,
            c,
            ds1 + ds2,
            button,
            ss1 + ss2,
        ),
{
    let turned1 = if button { rotated_all(o, c, ds1) } else { o };
    let after1 = zoomed_all(turned1, c, ss1);
    let turned2 = if button { rotated_all(after1, c, ds2) } else { after1 };
    let after2 = zoomed_all(turned2, c, ss2);
    let turned = if button { rotated_all(o, c, ds1 + ds2) } else { o };
    let after = zoomed_all(turned, c, ss1 + ss2);
    assert(after2 == updated(updated(o, c, ds1, button, ss1), c, ds2, button, ss2));
    assert(after == updated(o, c, ds1 + ds2, button, ss1 + ss2));
    // Angles: the first frame's zoom does not touch them.
    lemma_zoom_keeps_angles(turned1, c, ss1);
    lemma_zoom_keeps_angles(turned2, c, ss2);
    lemma_zoom_keeps_angles(turned, c, ss1 + ss2);
    if button {
        lemma_rotation_is_blind_to_radius(after1, turned1, c, ds2);
        lemma_rotation_batches(o, c, ds1, ds2);
        lemma_rotation_is_blind_to_radius(o, o, c, ds1);
        lemma_rotation_is_blind_to_radius(o, o, c, ds1 + ds2);
    }
    // Radius: the second frame's turning does not touch it.
    lemma_zoom_batches(turned1, c, ss1, ss2);
    lemma_zoom_is_blind_to_angles(turned2, after1, c, ss2);
    lemma_zoom_is_blind_to_angles(turned1, turned, c, ss1 + ss2);
}

/// A pointer sample with a saturated reading leaves no trace: the samples
/// that count, alone, turn the camera to the same place.
pub proof fn lemma_unusable_samples_leave_no_trace(
    o: Orbit,
    c: OrbitSettings,
    ds: Seq<PointerDelta>,
)
    ensures
        rotated_all(o, c, ds) == rotated_all(o, c, ds.filter(|d: PointerDelta| d.usable())),
    decreases ds.len(),
{
    reveal(Seq::filter);
    let counts = |d: PointerDelta| d.usable();
    if ds.len() > 0 {
        let kept = ds.drop_last().filter(counts);
        lemma_unusable_samples_leave_no_trace(o, c, ds.drop_last());
        if ds.last().usable() {
            assert(kept.push(ds.last()).drop_last() == kept);
            assert(kept.push(ds.last()).last() == ds.last());
        }
    }
}

/// A saturated scroll reading leaves no trace: the readings that count,
/// alone, move the camera to the same place.
pub proof fn lemma_saturated_scroll_leaves_no_trace(o: Orbit, c: OrbitSettings, ss: Seq<i64>)
    ensures
        zoomed_all(o, c, ss) == zoomed_all(o, c, ss.filter(|s: i64| !is_saturated(s))),
    decreases ss.len(),
{
    reveal(Seq::filter);
    let counts = |s: i64| !is_saturated(s);
    if ss.len() > 0 {
        let kept = ss.drop_last().filter(counts);
        lemma_saturated_scroll_leaves_no_trace(o, c, ss.drop_last());
        if !is_saturated(ss.last()) {
            assert(kept.push(ss.last()).drop_last() == kept);
            assert(kept.push(ss.last()).last() == ss.last());
        }
    }
}

} // verus!
