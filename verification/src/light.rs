//! The sun: a directional light that circles the scene at a steady rate.

use vstd::prelude::*;
use crate::angle::{is_wrapped, wrap, wrap_angle, TURN};

verus! {

/// Milliseconds in which the light completes one revolution.
pub const LIGHT_PERIOD_MS: u64 = 10_000;

/// The light's constant tilt: an eighth of a turn below level.
pub const LIGHT_PITCH: i64 = -0x2000_0000;

/// The light's yaw after `elapsed_ms` milliseconds: the elapsed fraction of
/// the current revolution, in angle units, rounded down and wrapped.
pub open spec fn light_yaw_at(elapsed_ms: int) -> int {
    wrap_angle(((elapsed_ms % (LIGHT_PERIOD_MS as int)) * TURN) / (LIGHT_PERIOD_MS as int))
}

/// The light's yaw after `elapsed_ms` milliseconds.
pub fn light_yaw(elapsed_ms: u64) -> (yaw: i64)
    ensures
        yaw == light_yaw_at(elapsed_ms as int),
        is_wrapped(yaw as int),
{
    let phase: i128 = (elapsed_ms % LIGHT_PERIOD_MS) as i128;
    wrap((phase * 0x1_0000_0000i128) / 10_000i128)
}

} // verus!
