//! From orbit to position.

use orbit_camera::angle::{HALF_TURN, QUARTER_TURN};
use orbit_camera::config::{OrbitConfig, OrbitSettings, ZoomMode};
use orbit_camera::controller::OrbitController;
use orbit_camera::orbit::{OrbitState, Point3};
use orbit_camera::pose::CameraPose;

const METRE: i64 = 1_000_000;

fn config() -> OrbitConfig {
    OrbitConfig::new(OrbitSettings {
        rotate_sensitivity: 3_417_826,
        zoom_mode: ZoomMode::Additive,
        zoom_sensitivity: METRE / 5,
        radius_min: METRE,
        radius_max: 10 * METRE,
        max_pitch: QUARTER_TURN - 684,
    })
    .unwrap()
}

fn pose(radius: i64, yaw: i64, pitch: i64, target: Point3) -> CameraPose {
    OrbitController::restore(config(), OrbitState { radius, yaw, pitch, target }).unwrap().pose()
}

#[test]
fn quarter_turn_of_yaw_puts_camera_on_z_axis() {
    let origin = Point3 { x: 0, y: 0, z: 0 };
    let p = pose(METRE, QUARTER_TURN, 0, origin);
    assert_eq!(p.position, Point3 { x: 0, y: 0, z: METRE });
    assert_eq!(p.target, origin);
}

#[test]
fn cardinal_yaws_land_on_the_axes() {
    let origin = Point3 { x: 0, y: 0, z: 0 };
    assert_eq!(pose(3 * METRE, 0, 0, origin).position, Point3 { x: 3 * METRE, y: 0, z: 0 });
    assert_eq!(pose(3 * METRE, -HALF_TURN, 0, origin).position, Point3 { x: -3 * METRE, y: 0, z: 0 });
    assert_eq!(pose(3 * METRE, -QUARTER_TURN, 0, origin).position, Point3 { x: 0, y: 0, z: -3 * METRE });
}

#[test]
fn position_is_relative_to_target() {
    let target = Point3 { x: 10, y: 300_000, z: -20 };
    let p = pose(2 * METRE, QUARTER_TURN, 0, target);
    assert_eq!(p.position, Point3 { x: 10, y: 300_000, z: 2 * METRE - 20 });
    assert_eq!(p.target, target);
}

#[test]
fn eighth_turn_of_pitch_splits_radius_evenly() {
    let origin = Point3 { x: 0, y: 0, z: 0 };
    let p = pose(METRE, 0, QUARTER_TURN / 2, origin);
    assert_eq!(p.position, Point3 { x: 707_105, y: 707_105, z: 0 });
    let q = pose(METRE, 0, -QUARTER_TURN / 2, origin);
    assert_eq!(q.position, Point3 { x: 707_105, y: -707_105, z: 0 });
}

#[test]
fn position_tracks_the_true_sphere() {
    let target = Point3 { x: 1_234, y: -5_678, z: 9_012 };
    let radius = 5 * METRE;
    let mut worst: f64 = 0.0;
    for i in -16..16 {
        for j in -7..8 {
            let yaw = i * (HALF_TURN / 16);
            let pitch = j * (QUARTER_TURN / 8);
            let p = pose(radius, yaw, pitch, target).position;
            let a = yaw as f64 / 4_294_967_296.0 * std::f64::consts::TAU;
            let b = pitch as f64 / 4_294_967_296.0 * std::f64::consts::TAU;
            let r = radius as f64;
            let want = [
                target.x as f64 + r * a.cos() * b.cos(),
                target.y as f64 + r * b.sin(),
                target.z as f64 + r * a.sin() * b.cos(),
            ];
            let got = [p.x as f64, p.y as f64, p.z as f64];
            for k in 0..3 {
                worst = worst.max((got[k] - want[k]).abs() / r);
            }
        }
    }
    assert!(worst < 0.00003, "worst relative error {}", worst);
}

#[test]
fn camera_faces_its_target() {
    let target = Point3 { x: 0, y: 300_000, z: 0 };
    for i in -8..8 {
        for j in -3..4 {
            let yaw = i * (HALF_TURN / 8) + 12_345;
            let pitch = j * (QUARTER_TURN / 4) + 6_789;
            let p = pose(3 * METRE, yaw, pitch, target);
            // What a look-at from the position to the target faces.
            let facing = [
                (p.target.x - p.position.x) as f64,
                (p.target.y - p.position.y) as f64,
                (p.target.z - p.position.z) as f64,
            ];
            let length = (facing[0] * facing[0] + facing[1] * facing[1] + facing[2] * facing[2]).sqrt();
            assert!(length > 0.0);
            // The camera is one radius away from what it looks at.
            assert!((length / (3 * METRE) as f64 - 1.0).abs() < 0.00003);
            // It looks down the line that the two angles give.
            let a = yaw as f64 / 4_294_967_296.0 * std::f64::consts::TAU;
            let b = pitch as f64 / 4_294_967_296.0 * std::f64::consts::TAU;
            let inward = [-a.cos() * b.cos(), -b.sin(), -a.sin() * b.cos()];
            let dot = (facing[0] * inward[0] + facing[1] * inward[1] + facing[2] * inward[2]) / length;
            assert!((dot - 1.0).abs() < 1e-9, "{}", dot);
        }
    }
}

#[test]
fn camera_at_pitch_limit_is_off_the_vertical() {
    let origin = Point3 { x: 0, y: 0, z: 0 };
    for i in -8..8 {
        let p = pose(10 * METRE, i * (HALF_TURN / 8), QUARTER_TURN - 684, origin).position;
        assert!(p.x != 0 || p.z != 0);
        assert!(p.y > 9_999_000);
    }
}

#[test]
fn update_returns_the_pose_after_the_frame() {
    let mut camera = OrbitController::new(config(), 3 * METRE, Point3 { x: 0, y: 0, z: 0 }).unwrap();
    let mut input = orbit_camera::input::FrameInput {
        pointer_deltas: vec![],
        primary_button_down: false,
        scroll_deltas: vec![5],
    };
    let p = camera.update(&mut input);
    assert_eq!(p.position, Point3 { x: 2 * METRE, y: 0, z: 0 });
    assert_eq!(p, camera.pose());
}

fn tiny(radius: i64, yaw: i64, pitch: i64) -> Point3 {
    let config = OrbitConfig::new(OrbitSettings {
        rotate_sensitivity: 1,
        zoom_mode: ZoomMode::Additive,
        zoom_sensitivity: 1,
        radius_min: 1,
        radius_max: 10,
        max_pitch: QUARTER_TURN - 1,
    })
    .unwrap();
    let target = Point3 { x: 0, y: 0, z: 0 };
    OrbitController::restore(config, OrbitState { radius, yaw, pitch, target }).unwrap().pose().position
}

#[test]
fn two_units_out_the_camera_is_never_on_its_target() {
    let origin = Point3 { x: 0, y: 0, z: 0 };
    for i in -64..64 {
        for j in -63..64 {
            let yaw = i * (HALF_TURN / 64);
            let pitch = j * (QUARTER_TURN / 64);
            assert_ne!(tiny(2, yaw, pitch), origin, "{} {}", yaw, pitch);
            assert_ne!(tiny(2, yaw + 1, pitch - 1), origin);
        }
    }
}

#[test]
fn one_unit_out_rounding_can_put_the_camera_on_its_target() {
    let origin = Point3 { x: 0, y: 0, z: 0 };
    assert_eq!(tiny(1, QUARTER_TURN / 2, QUARTER_TURN / 2), origin);
    assert_eq!(tiny(1, 1, 0), origin);
    // Level on an axis there is nothing to round.
    assert_eq!(tiny(1, 0, 0), Point3 { x: 1, y: 0, z: 0 });
    assert_eq!(tiny(1, QUARTER_TURN, 0), Point3 { x: 0, y: 0, z: 1 });
    assert_eq!(tiny(1, -HALF_TURN, 0), Point3 { x: -1, y: 0, z: 0 });
    assert_eq!(tiny(1, -QUARTER_TURN, 0), Point3 { x: 0, y: 0, z: -1 });
}
