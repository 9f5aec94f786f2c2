//! From spherical coordinates to a position in space.

use vstd::prelude::*;
use crate::config::LENGTH_LIMIT;
use crate::orbit::{Orbit, OrbitState, Point, Point3};
use crate::trig::{cos, cosine, lemma_sine_range, sin, sine, ONE};

verus! {

/// Division rounded toward zero, for a positive divisor.
pub open spec fn toward_zero(n: int, d: int) -> int {
    if n >= 0 {
        n / d
    } else {
        -((-n) / d)
    }
}

/// The camera's displacement from its target: `radius` along the direction
/// that yaw and pitch give, each coordinate rounded toward zero.
pub open spec fn offset(o: Orbit) -> Point {
    Point {
        x: toward_zero(o.radius * cosine(o.yaw) * cosine(o.pitch), ONE * ONE),
        y: toward_zero(o.radius * sine(o.pitch), ONE as int),
        z: toward_zero(o.radius * sine(o.yaw) * cosine(o.pitch), ONE * ONE),
    }
}

/// The camera's position: its target plus its displacement.
pub open spec fn position(o: Orbit) -> Point {
    Point {
        x: o.target.x + offset(o).x,
        y: o.target.y + offset(o).y,
        z: o.target.z + offset(o).z,
    }
}

/// Where the camera stands and what it looks at, as mathematical integers.
pub struct Pose {
    pub position: Point,
    pub target: Point,
}

/// Where the camera stands and what it looks at. The orientation is not
/// stored: it is the one that looks from `position` at `target` with the
/// y axis up.
#[derive(Clone, Copy, Debug, PartialEq, Eq, Structural)]
pub struct CameraPose {
    /// The camera's place, in length units.
    pub position: Point3,
    /// The point the camera faces.
    pub target: Point3,
}

impl View for CameraPose {
    type V = Pose;

    open spec fn view(&self) -> Pose {
        Pose { position: self.position@, target: self.target@ }
    }
}

/// The pose that an orbit determines.
pub open spec fn pose_of(o: Orbit) -> Pose {
    Pose { position: position(o), target: o.target }
}

/// The direction the camera faces, unnormalised: from its position to its
/// target.
pub open spec fn facing(p: Pose) -> Point {
    Point {
        x: p.target.x - p.position.x,
        y: p.target.y - p.position.y,
        z: p.target.z - p.position.z,
    }
}

/// No coordinate of the displacement exceeds the radius.
pub proof fn lemma_offset_within_radius(o: Orbit)
    requires
        o.radius >= 0,
    ensures
        -o.radius <= offset(o).x <= o.radius,
        -o.radius <= offset(o).y <= o.radius,
        -o.radius <= offset(o).z <= o.radius,
{
    lemma_sine_range(o.yaw);
    lemma_sine_range(o.pitch);
    lemma_scaled_pair(o.radius, cosine(o.yaw), cosine(o.pitch));
    lemma_scaled_pair(o.radius, sine(o.yaw), cosine(o.pitch));
    lemma_scaled_one(o.radius, sine(o.pitch));
}

/// A radius times one fixed-point factor, brought back to length units,
/// does not exceed the radius.
proof fn lemma_scaled_one(r: int, a: int)
    requires
        r >= 0,
        -ONE <= a <= ONE,
    ensures
        -r <= toward_zero(r * a, ONE as int) <= r,
{
    assert(-(r * ONE) <= r * a <= r * ONE) by (nonlinear_arith)
        requires
            r >= 0,
            -ONE <= a <= ONE,
    ;
    lemma_toward_zero_bound(r * a, ONE as int, r);
}

/// A radius times two fixed-point factors, brought back to length units,
/// does not exceed the radius.
proof fn lemma_scaled_pair(r: int, a: int, b: int)
    requires
        r >= 0,
        -ONE <= a <= ONE,
        -ONE <= b <= ONE,
    ensures
        -r <= toward_zero(r * a * b, ONE * ONE) <= r,
{
    assert(-(r * ONE) <= r * a <= r * ONE) by (nonlinear_arith)
        requires
            r >= 0,
            -ONE <= a <= ONE,
    ;
    assert(-(r * (ONE * ONE)) <= r * a * b <= r * (ONE * ONE)) by (nonlinear_arith)
        requires
            -(r * ONE) <= r * a <= r * ONE,
            -ONE <= b <= ONE,
            r >= 0,
    ;
    lemma_toward_zero_bound(r * a * b, ONE * ONE, r);
}

/// A quotient rounded toward zero is as bounded as its numerator.
proof fn lemma_toward_zero_bound(n: int, d: int, r: int)
    requires
        d > 0,
        r >= 0,
        -(r * d) <= n <= r * d,
    ensures
        -r <= toward_zero(n, d) <= r,
{
    vstd::arithmetic::div_mod::lemma_fundamental_div_mod_converse(r * d, d, r, 0);
    if n >= 0 {
        vstd::arithmetic::div_mod::lemma_div_is_ordered(0, n, d);
        vstd::arithmetic::div_mod::lemma_div_is_ordered(n, r * d, d);
    } else {
        vstd::arithmetic::div_mod::lemma_div_is_ordered(0, -n, d);
        vstd::arithmetic::div_mod::lemma_div_is_ordered(-n, r * d, d);
    }
}

/// The position of a camera whose radius and target are within
/// `LENGTH_LIMIT`.
pub(crate) fn project(state: &OrbitState) -> (p: Point3)
    requires
        0 <= state.radius <= LENGTH_LIMIT,
        -LENGTH_LIMIT <= state.target.x <= LENGTH_LIMIT,
        -LENGTH_LIMIT <= state.target.y <= LENGTH_LIMIT,
        -LENGTH_LIMIT <= state.target.z <= LENGTH_LIMIT,
    ensures
        p@ == position(state@),
{
    let cy: i128 = cos(state.yaw) as i128;
    let sy: i128 = sin(state.yaw) as i128;
    let cp: i128 = cos(state.pitch) as i128;
    let sp: i128 = sin(state.pitch) as i128;
    let r: i128 = state.radius as i128;
    let unit: i128 = ONE as i128;
    proof {
        lemma_offset_within_radius(state@);
        assert(-(r * unit) <= r * cy <= r * unit) by (nonlinear_arith)
            requires
                r >= 0,
                -unit <= cy <= unit,
        ;
        assert(-(r * unit) <= r * sy <= r * unit) by (nonlinear_arith)
            requires
                r >= 0,
                -unit <= sy <= unit,
        ;
        assert(-(r * unit) <= r * sp <= r * unit) by (nonlinear_arith)
            requires
                r >= 0,
                -unit <= sp <= unit,
        ;
        assert(r * unit <= 0x2000_0000_0000_0000 * 0x4000_0000) by (nonlinear_arith)
            requires
                0 <= r <= 0x2000_0000_0000_0000,
                unit == 0x4000_0000,
        ;
        assert(-(r * unit * unit) <= r * cy * cp <= r * unit * unit) by (nonlinear_arith)
            requires
                -(r * unit) <= r * cy <= r * unit,
                -unit <= cp <= unit,
                r >= 0,
                unit > 0,
        ;
        assert(-(r * unit * unit) <= r * sy * cp <= r * unit * unit) by (nonlinear_arith)
            requires
                -(r * unit) <= r * sy <= r * unit,
                -unit <= cp <= unit,
                r >= 0,
                unit > 0,
        ;
        assert(r * unit * unit <= 0x2000_0000_0000_0000 * 0x4000_0000 * 0x4000_0000)
            by (nonlinear_arith)
            requires
                0 <= r <= 0x2000_0000_0000_0000,
                unit == 0x4000_0000,
        ;
    }
    let x: i128 = (r * cy * cp) / (unit * unit);
    let y: i128 = (r * sp) / unit;
    let z: i128 = (r * sy * cp) / (unit * unit);
    Point3 {
        x: (state.target.x as i128 + x) as i64,
        y: (state.target.y as i128 + y) as i64,
        z: (state.target.z as i128 + z) as i64,
    }
}

} // verus!
