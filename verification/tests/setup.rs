//! Configurations and starting states, accepted and refused.

use orbit_camera::angle::{wrap, HALF_TURN, QUARTER_TURN, TURN};
use orbit_camera::config::{ConfigError, OrbitConfig, OrbitSettings, ZoomMode, LENGTH_LIMIT, MILLION};
use orbit_camera::controller::OrbitController;
use orbit_camera::input::{saturated, PointerDelta};
use orbit_camera::orbit::{OrbitState, Point3};

fn sound() -> OrbitSettings {
    OrbitSettings {
        rotate_sensitivity: 1000,
        zoom_mode: ZoomMode::Additive,
        zoom_sensitivity: 200,
        radius_min: 1000,
        radius_max: 10_000,
        max_pitch: QUARTER_TURN - 1,
    }
}

fn refusal(settings: OrbitSettings) -> ConfigError {
    OrbitConfig::new(settings).unwrap_err()
}

#[test]
fn sound_settings_are_accepted_unchanged() {
    let config = OrbitConfig::new(sound()).unwrap();
    assert_eq!(config.settings(), sound());
    let scaled = OrbitSettings { zoom_mode: ZoomMode::Multiplicative, zoom_sensitivity: 1, ..sound() };
    assert_eq!(OrbitConfig::new(scaled).unwrap().settings(), scaled);
    let widest = OrbitSettings { radius_min: 1, radius_max: LENGTH_LIMIT, max_pitch: 0, ..sound() };
    assert_eq!(OrbitConfig::new(widest).unwrap().settings(), widest);
    let inverted = OrbitSettings { rotate_sensitivity: -5, zoom_sensitivity: -7, ..sound() };
    assert_eq!(OrbitConfig::new(inverted).unwrap().settings(), inverted);
}

#[test]
fn radius_min_must_be_positive() {
    assert_eq!(refusal(OrbitSettings { radius_min: 0, ..sound() }), ConfigError::RadiusMinNotPositive);
    assert_eq!(refusal(OrbitSettings { radius_min: -1, ..sound() }), ConfigError::RadiusMinNotPositive);
    assert_eq!(
        refusal(OrbitSettings { radius_min: i64::MIN, radius_max: i64::MIN, max_pitch: -1, ..sound() }),
        ConfigError::RadiusMinNotPositive
    );
}

#[test]
fn radius_bounds_must_be_ordered() {
    assert_eq!(
        refusal(OrbitSettings { radius_min: 10_001, ..sound() }),
        ConfigError::RadiusBoundsInverted
    );
    assert!(OrbitConfig::new(OrbitSettings { radius_min: 10_000, ..sound() }).is_ok());
}

#[test]
fn radius_max_must_fit() {
    assert_eq!(
        refusal(OrbitSettings { radius_max: LENGTH_LIMIT + 1, ..sound() }),
        ConfigError::RadiusMaxTooLarge
    );
    assert_eq!(refusal(OrbitSettings { radius_max: i64::MAX, ..sound() }), ConfigError::RadiusMaxTooLarge);
}

#[test]
fn max_pitch_must_stay_below_the_pole() {
    assert_eq!(
        refusal(OrbitSettings { max_pitch: QUARTER_TURN, ..sound() }),
        ConfigError::MaxPitchOutOfRange
    );
    assert_eq!(refusal(OrbitSettings { max_pitch: i64::MAX, ..sound() }), ConfigError::MaxPitchOutOfRange);
    assert_eq!(refusal(OrbitSettings { max_pitch: -1, ..sound() }), ConfigError::MaxPitchOutOfRange);
}

#[test]
fn decay_must_lie_strictly_between_zero_and_one() {
    let scaled = OrbitSettings { zoom_mode: ZoomMode::Multiplicative, ..sound() };
    assert_eq!(refusal(OrbitSettings { zoom_sensitivity: 0, ..scaled }), ConfigError::DecayOutOfRange);
    assert_eq!(refusal(OrbitSettings { zoom_sensitivity: -850_000, ..scaled }), ConfigError::DecayOutOfRange);
    assert_eq!(refusal(OrbitSettings { zoom_sensitivity: MILLION, ..scaled }), ConfigError::DecayOutOfRange);
    assert!(OrbitConfig::new(OrbitSettings { zoom_sensitivity: MILLION - 1, ..scaled }).is_ok());
    // The same numbers are a plain step under the additive policy.
    assert!(OrbitConfig::new(OrbitSettings { zoom_sensitivity: MILLION, ..sound() }).is_ok());
}

#[test]
fn first_defect_is_reported() {
    let broken = OrbitSettings {
        radius_min: 0,
        radius_max: -1,
        max_pitch: QUARTER_TURN,
        zoom_mode: ZoomMode::Multiplicative,
        zoom_sensitivity: 0,
        ..sound()
    };
    assert_eq!(refusal(broken), ConfigError::RadiusMinNotPositive);
    assert_eq!(refusal(OrbitSettings { radius_min: 5, radius_max: 4, ..broken }), ConfigError::RadiusBoundsInverted);
    assert_eq!(
        refusal(OrbitSettings { radius_min: 5, radius_max: i64::MAX, ..broken }),
        ConfigError::RadiusMaxTooLarge
    );
    assert_eq!(refusal(OrbitSettings { radius_min: 5, radius_max: 6, ..broken }), ConfigError::MaxPitchOutOfRange);
    assert_eq!(
        refusal(OrbitSettings { radius_min: 5, radius_max: 6, max_pitch: 0, ..broken }),
        ConfigError::DecayOutOfRange
    );
}

#[test]
fn new_camera_starts_level_at_yaw_zero() {
    let config = OrbitConfig::new(sound()).unwrap();
    let target = Point3 { x: 1, y: 2, z: 3 };
    let camera = OrbitController::new(config, 3000, target).unwrap();
    assert_eq!(camera.state(), OrbitState { radius: 3000, yaw: 0, pitch: 0, target });
    assert_eq!(camera.config().settings(), sound());
}

#[test]
fn initial_radius_must_be_within_bounds() {
    let config = OrbitConfig::new(sound()).unwrap();
    let origin = Point3 { x: 0, y: 0, z: 0 };
    assert_eq!(OrbitController::new(config, 999, origin).unwrap_err(), ConfigError::RadiusOutOfBounds);
    assert_eq!(OrbitController::new(config, 10_001, origin).unwrap_err(), ConfigError::RadiusOutOfBounds);
    assert!(OrbitController::new(config, 1000, origin).is_ok());
    assert!(OrbitController::new(config, 10_000, origin).is_ok());
}

#[test]
fn initial_pitch_must_be_within_bounds() {
    let config = OrbitConfig::new(OrbitSettings { max_pitch: 500, ..sound() }).unwrap();
    let origin = Point3 { x: 0, y: 0, z: 0 };
    let at = |pitch: i64| OrbitController::restore(config, OrbitState { radius: 2000, yaw: 0, pitch, target: origin });
    assert_eq!(at(501).unwrap_err(), ConfigError::PitchOutOfBounds);
    assert_eq!(at(-501).unwrap_err(), ConfigError::PitchOutOfBounds);
    assert_eq!(at(i64::MIN).unwrap_err(), ConfigError::PitchOutOfBounds);
    assert_eq!(at(500).unwrap().state().pitch, 500);
    assert_eq!(at(-500).unwrap().state().pitch, -500);
}

#[test]
fn target_must_be_within_range() {
    let config = OrbitConfig::new(sound()).unwrap();
    for target in [
        Point3 { x: LENGTH_LIMIT + 1, y: 0, z: 0 },
        Point3 { x: 0, y: -LENGTH_LIMIT - 1, z: 0 },
        Point3 { x: 0, y: 0, z: i64::MIN },
    ] {
        assert_eq!(OrbitController::new(config, 2000, target).unwrap_err(), ConfigError::TargetOutOfRange);
    }
    let far = Point3 { x: LENGTH_LIMIT, y: -LENGTH_LIMIT, z: LENGTH_LIMIT };
    let camera = OrbitController::new(config, 10_000, far).unwrap();
    assert_eq!(camera.pose().position, Point3 { x: LENGTH_LIMIT + 10_000, y: -LENGTH_LIMIT, z: LENGTH_LIMIT });
}

#[test]
fn first_start_defect_is_reported() {
    let config = OrbitConfig::new(OrbitSettings { max_pitch: 500, ..sound() }).unwrap();
    let bad = Point3 { x: i64::MAX, y: 0, z: 0 };
    let at = |radius: i64, pitch: i64| OrbitController::restore(config, OrbitState { radius, yaw: 0, pitch, target: bad });
    assert_eq!(at(0, 501).unwrap_err(), ConfigError::RadiusOutOfBounds);
    assert_eq!(at(2000, 501).unwrap_err(), ConfigError::PitchOutOfBounds);
    assert_eq!(at(2000, 0).unwrap_err(), ConfigError::TargetOutOfRange);
}

#[test]
fn restored_yaw_is_wrapped() {
    let config = OrbitConfig::new(sound()).unwrap();
    let origin = Point3 { x: 0, y: 0, z: 0 };
    let at = |yaw: i64| {
        OrbitController::restore(config, OrbitState { radius: 2000, yaw, pitch: 0, target: origin })
            .unwrap()
            .state()
            .yaw
    };
    assert_eq!(at(0), 0);
    assert_eq!(at(HALF_TURN - 1), HALF_TURN - 1);
    assert_eq!(at(HALF_TURN), -HALF_TURN);
    assert_eq!(at(-HALF_TURN), -HALF_TURN);
    assert_eq!(at(-HALF_TURN - 1), HALF_TURN - 1);
    assert_eq!(at(TURN + 5), 5);
    assert_eq!(at(i64::MAX), -1);
    assert_eq!(at(i64::MIN), 0);
}

#[test]
fn wrap_picks_the_representative_nearest_zero() {
    assert_eq!(wrap(0), 0);
    assert_eq!(wrap(HALF_TURN as i128), -HALF_TURN);
    assert_eq!(wrap(-(HALF_TURN as i128) - 1), HALF_TURN - 1);
    assert_eq!(wrap(7 * (TURN as i128) + 12), 12);
    assert_eq!(wrap(-7 * (TURN as i128) - 12), -12);
    assert_eq!(wrap(i128::MAX), -1);
    assert_eq!(wrap(i128::MIN), 0);
}

#[test]
fn only_the_ends_of_the_range_are_saturated() {
    assert!(saturated(i64::MAX));
    assert!(saturated(i64::MIN));
    assert!(!saturated(i64::MAX - 1));
    assert!(!saturated(i64::MIN + 1));
    assert!(!saturated(0));
    assert!(PointerDelta { dx: 1, dy: -1 }.is_usable());
    assert!(!PointerDelta { dx: i64::MAX, dy: 0 }.is_usable());
    assert!(!PointerDelta { dx: 0, dy: i64::MIN }.is_usable());
}
