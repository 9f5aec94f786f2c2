//! The camera controller: a configuration and the orbit it governs.

use vstd::prelude::*;
use crate::angle::{lemma_wrap_canonical, wrap, wrap_angle};
use crate::config::{valid_settings, ConfigError, OrbitConfig, OrbitSettings, LENGTH_LIMIT};
use crate::input::{FrameInput, PointerDelta};
use crate::laws::lemma_update_keeps_orbit_valid;
use crate::orbit::{updated, valid_orbit, Orbit, OrbitState, Point, Point3};
use crate::pose::{pose_of, project, CameraPose};

verus! {

/// The first reason why a camera cannot start from `o` under settings `c`,
/// if there is one. The yaw is never a reason: it is wrapped.
pub open spec fn start_defect(o: Orbit, c: OrbitSettings) -> Option<ConfigError> {
    if !(c.radius_min <= o.radius <= c.radius_max) {
        Some(ConfigError::RadiusOutOfBounds)
    } else if !(-c.max_pitch <= o.pitch <= c.max_pitch) {
        Some(ConfigError::PitchOutOfBounds)
    } else if !(-LENGTH_LIMIT <= o.target.x <= LENGTH_LIMIT && -LENGTH_LIMIT <= o.target.y
        <= LENGTH_LIMIT && -LENGTH_LIMIT <= o.target.z <= LENGTH_LIMIT) {
        Some(ConfigError::TargetOutOfRange)
    } else {
        None
    }
}

/// The orbit at `radius` from `target` with both angles at zero.
pub open spec fn level_orbit(radius: int, target: Point) -> Orbit {
    Orbit { radius, yaw: 0, pitch: 0, target }
}

/// An orbit camera: its configuration and its current orbit. The orbit is
/// valid under the configuration at all times.
#[derive(Clone, Copy, Debug)]
pub struct OrbitController {
    config: OrbitConfig,
    state: OrbitState,
}

impl View for OrbitController {
    type V = Orbit;

    closed spec fn view(&self) -> Orbit {
        self.state@
    }
}

impl OrbitController {
    #[verifier::type_invariant]
    spec fn sound(self) -> bool {
        valid_settings(self.config@) && valid_orbit(self.state@, self.config@)
    }

    /// The settings the camera runs under.
    pub closed spec fn settings(&self) -> OrbitSettings {
        self.config@
    }

    /// A camera at `radius` from `target`, level and at yaw zero. Refused
    /// when the radius is outside the configured bounds or the target is
    /// out of range.
    pub fn new(config: OrbitConfig, radius: i64, target: Point3) -> (r: Result<
        OrbitController,
        ConfigError,
    >)
        ensures
            match r {
                Ok(k) => {
                    &&& start_defect(level_orbit(radius as int, target@), config@) is None
                    &&& k@ == level_orbit(radius as int, target@)
                    &&& k.settings() == config@
                    &&& valid_orbit(k@, k.settings())
                },
                Err(e) => start_defect(level_orbit(radius as int, target@), config@) == Some(e),
            },
    {
        let r = OrbitController::restore(config, OrbitState { radius, yaw: 0, pitch: 0, target });
        proof {
            lemma_wrap_canonical(0);
        }
        r
    }

    /// A camera that resumes from `state`, with the yaw wrapped into its
    /// canonical range. Refused when the radius or the pitch is outside the
    /// configured bounds or the target is out of range.
    pub fn restore(config: OrbitConfig, state: OrbitState) -> (r: Result<
        OrbitController,
        ConfigError,
    >)
        ensures
            match r {
                Ok(k) => {
                    &&& start_defect(state@, config@) is None
                    &&& k@ == Orbit { yaw: wrap_angle(state.yaw as int), ..state@ }
                    &&& k.settings() == config@
                    &&& valid_orbit(k@, k.settings())
                },
                Err(e) => start_defect(state@, config@) == Some(e),
            },
    {
        let c: OrbitSettings = config.settings();
        if state.radius < c.radius_min || state.radius > c.radius_max {
            return Err(ConfigError::RadiusOutOfBounds);
        }
        if state.pitch < -c.max_pitch || state.pitch > c.max_pitch {
            return Err(ConfigError::PitchOutOfBounds);
        }
        let t: Point3 = state.target;
        if t.x < -LENGTH_LIMIT || t.x > LENGTH_LIMIT || t.y < -LENGTH_LIMIT || t.y > LENGTH_LIMIT
            || t.z < -LENGTH_LIMIT || t.z > LENGTH_LIMIT {
            return Err(ConfigError::TargetOutOfRange);
        }
        let yaw: i64 = wrap(state.yaw as i128);
        Ok(
            OrbitController {
                config,
                state: OrbitState { radius: state.radius, yaw, pitch: state.pitch, target: t },
            },
        )
    }

    /// Runs one frame: applies the pointer samples, in order, if the button
    /// is held; applies the scroll samples, in order; empties both queues;
    /// and returns the pose of the camera after the frame.
    pub fn update(&mut self, input: &mut FrameInput) -> (pose: CameraPose)
        ensures
            final(self)@ == updated(
                old(self)@,
                old(self).settings(),
                old(input).pointer_deltas@,
                old(input).primary_button_down,
                old(input).scroll_deltas@,
            ),
            final(self).settings() == old(self).settings(),
            valid_orbit(final(self)@, final(self).settings()),
            final(input).pointer_deltas@ == Seq::<PointerDelta>::empty(),
            final(input).scroll_deltas@ == Seq::<i64>::empty(),
            final(input).primary_button_down == old(input).primary_button_down,
            pose@ == pose_of(final(self)@),
    {
        proof {
            use_type_invariant(&*self);
            lemma_update_keeps_orbit_valid(
                self.state@,
                self.config@,
                input.pointer_deltas@,
                input.primary_button_down,
                input.scroll_deltas@,
            );
        }
        let next: OrbitState = self.state.advanced(&self.config, input);
        self.state = next;
        input.pointer_deltas.clear();
        input.scroll_deltas.clear();
        CameraPose { position: project(&next), target: next.target }
    }

    /// The pose of the camera as it stands.
    pub fn pose(&self) -> (pose: CameraPose)
        ensures
            pose@ == pose_of(self@),
    {
        proof {
            use_type_invariant(self);
        }
        CameraPose { position: project(&self.state), target: self.state.target }
    }

    /// The current orbit.
    pub fn state(&self) -> (s: OrbitState)
        ensures
            s@ == self@,
            valid_orbit(s@, self.settings()),
    {
        proof {
            use_type_invariant(self);
        }
        self.state
    }

    /// The configuration the camera runs under.
    pub fn config(&self) -> (c: OrbitConfig)
        ensures
            c@ == self.settings(),
    {
        self.config
    }
}

} // verus!
