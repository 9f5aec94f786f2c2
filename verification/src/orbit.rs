//! The orbit state and the arithmetic of one frame.

use vstd::prelude::*;
use crate::angle::{is_wrapped, wrap, wrap_angle};
use crate::config::{valid_settings, OrbitConfig, OrbitSettings, ZoomMode, LENGTH_LIMIT, MILLION};
use crate::input::{is_saturated, saturated, FrameInput, PointerDelta};

verus! {

/// A point in space, as mathematical integers.
pub struct Point {
    pub x: int,
    pub y: int,
    pub z: int,
}

/// A point in space, in length units.
#[derive(Clone, Copy, Debug, PartialEq, Eq, Structural)]
pub struct Point3 {
    pub x: i64,
    pub y: i64,
    pub z: i64,
}

impl View for Point3 {
    type V = Point;

    open spec fn view(&self) -> Point {
        Point { x: self.x as int, y: self.y as int, z: self.z as int }
    }
}

/// The camera's spherical coordinates, as mathematical integers.
pub struct Orbit {
    /// Distance from the target, in length units.
    pub radius: int,
    /// Azimuth, in angle units.
    pub yaw: int,
    /// Elevation, in angle units.
    pub pitch: int,
    /// The point the camera looks at.
    pub target: Point,
}

/// The camera's spherical coordinates.
#[derive(Clone, Copy, Debug, PartialEq, Eq, Structural)]
pub struct OrbitState {
    /// Distance from the target, in length units.
    pub radius: i64,
    /// Azimuth, in angle units.
    pub yaw: i64,
    /// Elevation, in angle units.
    pub pitch: i64,
    /// The point the camera looks at.
    pub target: Point3,
}

impl View for OrbitState {
    type V = Orbit;

    open spec fn view(&self) -> Orbit {
        Orbit {
            radius: self.radius as int,
            yaw: self.yaw as int,
            pitch: self.pitch as int,
            target: self.target@,
        }
    }
}

/// The invariants of an orbit under settings `c`.
pub open spec fn valid_orbit(o: Orbit, c: OrbitSettings) -> bool {
    &&& c.radius_min <= o.radius <= c.radius_max
    &&& is_wrapped(o.yaw)
    &&& -c.max_pitch <= o.pitch <= c.max_pitch
    &&& -LENGTH_LIMIT <= o.target.x <= LENGTH_LIMIT
    &&& -LENGTH_LIMIT <= o.target.y <= LENGTH_LIMIT
    &&& -LENGTH_LIMIT <= o.target.z <= LENGTH_LIMIT
}

/// `v` moved to the nearest value in `[lo, hi]`.
pub open spec fn clamped(v: int, lo: int, hi: int) -> int {
    if v < lo {
        lo
    } else if v > hi {
        hi
    } else {
        v
    }
}

/// The orbit after one pointer sample with the button held. A sample with a
/// saturated reading is skipped.
pub open spec fn rotated(o: Orbit, c: OrbitSettings, d: PointerDelta) -> Orbit {
    if d.usable() {
        Orbit {
            yaw: wrap_angle(o.yaw - d.dx * c.rotate_sensitivity),
            pitch: clamped(
                o.pitch - d.dy * c.rotate_sensitivity,
                -c.max_pitch,
                c.max_pitch as int,
            ),
            ..o
        }
    } else {
        o
    }
}

/// The orbit after the pointer samples `ds`, applied in order.
pub open spec fn rotated_all(o: Orbit, c: OrbitSettings, ds: Seq<PointerDelta>) -> Orbit
    decreases ds.len(),
{
    if ds.len() == 0 {
        o
    } else {
        rotated(rotated_all(o, c, ds.drop_last()), c, ds.last())
    }
}

/// The radius one notch closer: scaled by the decay, rounded down, clamped.
pub open spec fn shrunk(r: int, c: OrbitSettings) -> int {
    clamped((r * c.zoom_sensitivity) / (MILLION as int), c.radius_min as int, c.radius_max as int)
}

/// The radius one notch farther: divided by the decay, rounded up, clamped.
pub open spec fn grown(r: int, c: OrbitSettings) -> int {
    clamped(
        -((-(r * MILLION)) / (c.zoom_sensitivity as int)),
        c.radius_min as int,
        c.radius_max as int,
    )
}

/// The radius after `n` notches of multiplicative zoom: `n` steps closer
/// when positive, `-n` steps farther when negative.
pub open spec fn scaled(r: int, c: OrbitSettings, n: int) -> int
    decreases (if n >= 0 { n } else { -n }),
{
    if n == 0 {
        r
    } else if n > 0 {
        scaled(shrunk(r, c), c, n - 1)
    } else {
        scaled(grown(r, c), c, n + 1)
    }
}

/// The radius after one scroll sample. A saturated reading is skipped.
pub open spec fn zoomed_radius(r: int, c: OrbitSettings, s: i64) -> int {
    if is_saturated(s) {
        r
    } else {
        match c.zoom_mode {
            ZoomMode::Additive => clamped(
                r - s * c.zoom_sensitivity,
                c.radius_min as int,
                c.radius_max as int,
            ),
            ZoomMode::Multiplicative => scaled(r, c, s as int),
        }
    }
}

/// The orbit after one scroll sample.
pub open spec fn zoomed(o: Orbit, c: OrbitSettings, s: i64) -> Orbit {
    Orbit { radius: zoomed_radius(o.radius, c, s), ..o }
}

/// The orbit after the scroll samples `ss`, applied in order.
pub open spec fn zoomed_all(o: Orbit, c: OrbitSettings, ss: Seq<i64>) -> Orbit
    decreases ss.len(),
{
    if ss.len() == 0 {
        o
    } else {
        zoomed(zoomed_all(o, c, ss.drop_last()), c, ss.last())
    }
}

/// The orbit after one frame: the pointer samples turn the camera only
/// while the button is held, then the scroll samples move it.
pub open spec fn updated(
    o: Orbit,
    c: OrbitSettings,
    ds: Seq<PointerDelta>,
    button: bool,
    ss: Seq<i64>,
) -> Orbit {
    zoomed_all(if button { rotated_all(o, c, ds) } else { o }, c, ss)
}

/// The exact product of two readings.
fn product(a: i64, b: i64) -> (p: i128)
    ensures
        p == a * b,
        -0x4000_0000_0000_0000_0000_0000_0000_0000 <= p <= 0x4000_0000_0000_0000_0000_0000_0000_0000,
{
    let x: i128 = a as i128;
    let y: i128 = b as i128;
    assert(-0x4000_0000_0000_0000_0000_0000_0000_0000 <= x * y
        <= 0x4000_0000_0000_0000_0000_0000_0000_0000) by (nonlinear_arith)
        requires
            -0x8000_0000_0000_0000 <= x <= 0x8000_0000_0000_0000,
            -0x8000_0000_0000_0000 <= y <= 0x8000_0000_0000_0000,
    ;
    x * y
}

/// Moves `v` to the nearest value in `[lo, hi]`.
fn clamp_to(v: i128, lo: i64, hi: i64) -> (r: i64)
    requires
        lo <= hi,
    ensures
        r == clamped(v as int, lo as int, hi as int),
        lo <= r <= hi,
{
    if v < lo as i128 {
        lo
    } else if v > hi as i128 {
        hi
    } else {
        v as i64
    }
}

/// Division rounded down, for a positive divisor.
fn div_floor(n: i128, d: i128) -> (q: i128)
    requires
        d > 0,
        -0x4000_0000_0000_0000_0000_0000_0000_0000 <= n <= 0x4000_0000_0000_0000_0000_0000_0000_0000,
    ensures
        q == n / d,
{
    let t: i128 = n / d;
    let m: i128 = n % d;
    proof {
        let ni: int = n as int;
        let di: int = d as int;
        let ti: int = t as int;
        let mi: int = m as int;
        if ni < 0 {
            let a: int = -ni;
            assert(ti == -(a / di));
            assert(mi == -(a % di));
            vstd::arithmetic::div_mod::lemma_fundamental_div_mod(a, di);
            assert(ni == ti * di + mi) by (nonlinear_arith)
                requires
                    a == di * (a / di) + a % di,
                    ti == -(a / di),
                    mi == -(a % di),
                    ni == -a,
            ;
            if mi < 0 {
                assert(ni == (ti - 1) * di + (mi + di)) by (nonlinear_arith)
                    requires
                        ni == ti * di + mi,
                ;
                vstd::arithmetic::div_mod::lemma_fundamental_div_mod_converse(
                    ni,
                    di,
                    ti - 1,
                    mi + di,
                );
            } else {
                vstd::arithmetic::div_mod::lemma_fundamental_div_mod_converse(ni, di, ti, mi);
            }
        }
    }
    if m < 0 {
        t - 1
    } else {
        t
    }
}

/// One notch closer.
fn shrink(r: i64, c: &OrbitSettings) -> (out: i64)
    requires
        valid_settings(*c),
    ensures
        out == shrunk(r as int, *c),
        c.radius_min <= out <= c.radius_max,
{
    let p: i128 = product(r, c.zoom_sensitivity);
    clamp_to(div_floor(p, MILLION as i128), c.radius_min, c.radius_max)
}

/// One notch farther.
fn grow(r: i64, c: &OrbitSettings) -> (out: i64)
    requires
        valid_settings(*c),
        c.zoom_sensitivity > 0,
    ensures
        out == grown(r as int, *c),
        c.radius_min <= out <= c.radius_max,
{
    let p: i128 = product(r, MILLION);
    let q: i128 = div_floor(-p, c.zoom_sensitivity as i128);
    assert(-0x4000_0000_0000_0000_0000_0000_0000_0000 <= q
        <= 0x4000_0000_0000_0000_0000_0000_0000_0000) by (nonlinear_arith)
        requires
            q == (-p) / (c.zoom_sensitivity as int),
            c.zoom_sensitivity > 0,
            -0x4000_0000_0000_0000_0000_0000_0000_0000 <= p
                <= 0x4000_0000_0000_0000_0000_0000_0000_0000,
    ;
    clamp_to(-q, c.radius_min, c.radius_max)
}

/// A radius that one notch does not move is not moved by any number of
/// notches in that direction.
proof fn lemma_scaled_at_rest(r: int, c: OrbitSettings, n: int)
    requires
        n > 0 ==> shrunk(r, c) == r,
        n < 0 ==> grown(r, c) == r,
    ensures
        scaled(r, c, n) == r,
    decreases (if n >= 0 { n } else { -n }),
{
    if n > 0 {
        lemma_scaled_at_rest(r, c, n - 1);
    } else if n < 0 {
        lemma_scaled_at_rest(r, c, n + 1);
    }
}

/// `n` notches of multiplicative zoom.
fn scale(r: i64, c: &OrbitSettings, n: i64) -> (out: i64)
    requires
        valid_settings(*c),
        c.zoom_mode == ZoomMode::Multiplicative,
        !is_saturated(n),
    ensures
        out == scaled(r as int, *c, n as int),
{
    let mut cur: i64 = r;
    let mut left: i64 = n;
    while left != 0
        invariant
            valid_settings(*c),
            c.zoom_mode == ZoomMode::Multiplicative,
            !is_saturated(left),
            scaled(cur as int, *c, left as int) == scaled(r as int, *c, n as int),
        decreases (if left >= 0 { left as int } else { -left }),
    {
        let next: i64 = if left > 0 { shrink(cur, c) } else { grow(cur, c) };
        if next == cur {
            proof {
                lemma_scaled_at_rest(cur as int, *c, left as int);
            }
            return cur;
        }
        cur = next;
        left = if left > 0 { left - 1 } else { left + 1 };
    }
    cur
}

impl OrbitState {
    /// The state after one pointer sample with the button held: yaw turns
    /// against the horizontal motion and wraps, pitch turns against the
    /// vertical motion and stops at the configured limit.
    pub fn rotated_by(self, config: &OrbitConfig, delta: PointerDelta) -> (r: OrbitState)
        ensures
            r@ == rotated(self@, config@, delta),
    {
        let c: OrbitSettings = config.settings();
        if !delta.is_usable() {
            return self;
        }
        let turn: i128 = product(delta.dx, c.rotate_sensitivity);
        let tilt: i128 = product(delta.dy, c.rotate_sensitivity);
        let yaw: i64 = wrap(self.yaw as i128 - turn);
        let pitch: i64 = clamp_to(self.pitch as i128 - tilt, -c.max_pitch, c.max_pitch);
        OrbitState { radius: self.radius, yaw, pitch, target: self.target }
    }

    /// The state after one scroll sample: the radius moves by the configured
    /// policy and stops at the configured bounds.
    pub fn zoomed_by(self, config: &OrbitConfig, scroll: i64) -> (r: OrbitState)
        ensures
            r@ == zoomed(self@, config@, scroll),
    {
        let c: OrbitSettings = config.settings();
        if saturated(scroll) {
            return self;
        }
        let radius: i64 = match c.zoom_mode {
            ZoomMode::Additive => {
                let step: i128 = product(scroll, c.zoom_sensitivity);
                clamp_to(self.radius as i128 - step, c.radius_min, c.radius_max)
            },
            ZoomMode::Multiplicative => scale(self.radius, &c, scroll),
        };
        OrbitState { radius, yaw: self.yaw, pitch: self.pitch, target: self.target }
    }

    /// The state after one frame of input: the pointer samples in order if
    /// the button is held, then the scroll samples in order.
    pub fn advanced(self, config: &OrbitConfig, input: &FrameInput) -> (r: OrbitState)
        ensures
            r@ == updated(
                self@,
                config@,
                input.pointer_deltas@,
                input.primary_button_down,
                input.scroll_deltas@,
            ),
    {
        let mut cur: OrbitState = self;
        if input.primary_button_down {
            let mut i: usize = 0;
            while i < input.pointer_deltas.len()
                invariant
                    i <= input.pointer_deltas@.len(),
                    cur@ == rotated_all(self@, config@, input.pointer_deltas@.take(i as int)),
                decreases input.pointer_deltas@.len() - i,
            {
                proof {
                    let ds = input.pointer_deltas@;
                    assert(ds.take(i + 1).drop_last() == ds.take(i as int));
                    assert(ds.take(i + 1).last() == ds[i as int]);
                }
                cur = cur.rotated_by(config, input.pointer_deltas[i]);
                i = i + 1;
            }
            assert(input.pointer_deltas@.take(i as int) == input.pointer_deltas@);
        }
        let ghost turned: Orbit = cur@;
        let mut j: usize = 0;
        while j < input.scroll_deltas.len()
            invariant
                j <= input.scroll_deltas@.len(),
                cur@ == zoomed_all(turned, config@, input.scroll_deltas@.take(j as int)),
            decreases input.scroll_deltas@.len() - j,
        {
            proof {
                let ss = input.scroll_deltas@;
                assert(ss.take(j + 1).drop_last() == ss.take(j as int));
                assert(ss.take(j + 1).last() == ss[j as int]);
            }
            cur = cur.zoomed_by(config, input.scroll_deltas[j]);
            j = j + 1;
        }
        assert(input.scroll_deltas@.take(j as int) == input.scroll_deltas@);
        cur
    }
}

} // verus!
