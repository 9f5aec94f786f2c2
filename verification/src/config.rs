//! Static configuration of an orbit camera, checked once at set-up.

use vstd::prelude::*;
use crate::angle::QUARTER_TURN;

verus! {

/// The largest radius a configuration may allow, and the largest magnitude
/// of a target coordinate. Keeps every position inside `i64`.
pub const LENGTH_LIMIT: i64 = 0x2000_0000_0000_0000;

/// The denominator of the zoom decay: a decay of `MILLION` would be 1.
pub const MILLION: i64 = 1_000_000;

/// How one scroll unit changes the radius.
#[derive(Clone, Copy, Debug, PartialEq, Eq, Structural)]
pub enum ZoomMode {
    /// Each scroll unit moves the camera by a constant distance.
    Additive,
    /// Each scroll unit scales the radius by a constant ratio.
    Multiplicative,
}

/// Why a configuration, or an initial state, was refused.
#[derive(Clone, Copy, Debug, PartialEq, Eq, Structural)]
pub enum ConfigError {
    /// `radius_min` is zero or negative.
    RadiusMinNotPositive,
    /// `radius_min` exceeds `radius_max`.
    RadiusBoundsInverted,
    /// `radius_max` exceeds `LENGTH_LIMIT`.
    RadiusMaxTooLarge,
    /// `max_pitch` is negative, or reaches a quarter turn.
    MaxPitchOutOfRange,
    /// Multiplicative zoom with a decay outside the open interval from 0 to 1.
    DecayOutOfRange,
    /// The initial radius lies outside the configured bounds.
    RadiusOutOfBounds,
    /// The initial pitch lies outside the configured bounds.
    PitchOutOfBounds,
    /// A target coordinate exceeds `LENGTH_LIMIT` in magnitude.
    TargetOutOfRange,
}

/// The values a host chooses for a camera, not yet checked.
///
/// Angles are in binary angle units (`TURN` to the revolution), lengths in
/// the host's length unit, pointer and scroll readings in device counts.
#[derive(Clone, Copy, Debug, PartialEq, Eq, Structural)]
pub struct OrbitSettings {
    /// Angle units turned per count of pointer motion.
    pub rotate_sensitivity: i64,
    /// Which zoom policy `zoom_sensitivity` feeds.
    pub zoom_mode: ZoomMode,
    /// Additive: length units per scroll count. Multiplicative: the decay
    /// per scroll count, in millionths.
    pub zoom_sensitivity: i64,
    /// Smallest radius, at least 1.
    pub radius_min: i64,
    /// Largest radius.
    pub radius_max: i64,
    /// Largest pitch magnitude, strictly below a quarter turn.
    pub max_pitch: i64,
}

/// The first defect of `s`, if it has one.
pub open spec fn settings_defect(s: OrbitSettings) -> Option<ConfigError> {
    if s.radius_min <= 0 {
        Some(ConfigError::RadiusMinNotPositive)
    } else if s.radius_min > s.radius_max {
        Some(ConfigError::RadiusBoundsInverted)
    } else if s.radius_max > LENGTH_LIMIT {
        Some(ConfigError::RadiusMaxTooLarge)
    } else if s.max_pitch < 0 || s.max_pitch >= QUARTER_TURN {
        Some(ConfigError::MaxPitchOutOfRange)
    } else if s.zoom_mode == ZoomMode::Multiplicative && !(0 < s.zoom_sensitivity < MILLION) {
        Some(ConfigError::DecayOutOfRange)
    } else {
        None
    }
}

/// Settings under which the camera's invariants can be kept.
pub open spec fn valid_settings(s: OrbitSettings) -> bool {
    &&& 0 < s.radius_min <= s.radius_max <= LENGTH_LIMIT
    &&& 0 <= s.max_pitch < QUARTER_TURN
    &&& s.zoom_mode == ZoomMode::Multiplicative ==> 0 < s.zoom_sensitivity < MILLION
}

/// Settings that passed the set-up check.
#[derive(Clone, Copy, Debug)]
pub struct OrbitConfig {
    settings: OrbitSettings,
}

impl View for OrbitConfig {
    type V = OrbitSettings;

    closed spec fn view(&self) -> OrbitSettings {
        self.settings
    }
}

impl OrbitConfig {
    #[verifier::type_invariant]
    spec fn checked(self) -> bool {
        valid_settings(self.settings)
    }

    /// Accepts `settings` exactly when they have no defect, and otherwise
    /// reports the first one.
    pub fn new(settings: OrbitSettings) -> (r: Result<OrbitConfig, ConfigError>)
        ensures
            match r {
                Ok(c) => settings_defect(settings) is None && c@ == settings && valid_settings(c@),
                Err(e) => settings_defect(settings) == Some(e),
            },
    {
        if settings.radius_min <= 0 {
            return Err(ConfigError::RadiusMinNotPositive);
        }
        if settings.radius_min > settings.radius_max {
            return Err(ConfigError::RadiusBoundsInverted);
        }
        if settings.radius_max > LENGTH_LIMIT {
            return Err(ConfigError::RadiusMaxTooLarge);
        }
        if settings.max_pitch < 0 || settings.max_pitch >= QUARTER_TURN {
            return Err(ConfigError::MaxPitchOutOfRange);
        }
        match settings.zoom_mode {
            ZoomMode::Multiplicative => {
                if settings.zoom_sensitivity <= 0 || settings.zoom_sensitivity >= MILLION {
                    return Err(ConfigError::DecayOutOfRange);
                }
            },
            ZoomMode::Additive => {},
        }
        Ok(OrbitConfig { settings })
    }

    /// The settings this configuration was made from.
    pub fn settings(&self) -> (s: OrbitSettings)
        ensures
            s == self@,
            valid_settings(s),
    {
        proof {
            use_type_invariant(self);
        }
        self.settings
    }
}

/// Settings are free of defects exactly when they are valid.
pub proof fn lemma_defect_free_is_valid(s: OrbitSettings)
    ensures
        settings_defect(s) is None <==> valid_settings(s),
{
}

} // verus!
