//! What the host hands over each frame.

use vstd::prelude::*;

verus! {

/// A reading pinned to either end of `i64` stands for one that had no finite
/// value (a host maps NaN and the infinities there). It carries no motion.
pub open spec fn is_saturated(v: i64) -> bool {
    v == i64::MIN || v == i64::MAX
}

/// Tests a reading for saturation.
pub fn saturated(v: i64) -> (b: bool)
    ensures
        b == is_saturated(v),
{
    v == i64::MIN || v == i64::MAX
}

/// One sample of relative pointer motion, in device counts.
#[derive(Clone, Copy, Debug, PartialEq, Eq, Structural)]
pub struct PointerDelta {
    /// Motion to the right.
    pub dx: i64,
    /// Motion downwards.
    pub dy: i64,
}

impl PointerDelta {
    /// A sample counts only if both of its readings are finite.
    pub open spec fn usable(self) -> bool {
        !is_saturated(self.dx) && !is_saturated(self.dy)
    }

    /// Tests whether the sample counts.
    pub fn is_usable(&self) -> (b: bool)
        ensures
            b == self.usable(),
    {
        !saturated(self.dx) && !saturated(self.dy)
    }
}

/// The events of one frame, in arrival order.
#[derive(Debug)]
pub struct FrameInput {
    /// Pointer motion samples since the last frame.
    pub pointer_deltas: Vec<PointerDelta>,
    /// Whether the primary button is held.
    pub primary_button_down: bool,
    /// Scroll wheel samples since the last frame, in device counts.
    pub scroll_deltas: Vec<i64>,
}

} // verus!
