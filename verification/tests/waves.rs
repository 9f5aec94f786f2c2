//! The integer sine and cosine, and the light that rides on them.

use orbit_camera::angle::{HALF_TURN, QUARTER_TURN, TURN};
use orbit_camera::light::{light_yaw, LIGHT_PERIOD_MS, LIGHT_PITCH};
use orbit_camera::trig::{cos, sin, ONE, STEEP, STRONG};

#[test]
fn sine_and_cosine_are_exact_at_quarter_turns() {
    assert_eq!((sin(0), cos(0)), (0, ONE));
    assert_eq!((sin(QUARTER_TURN), cos(QUARTER_TURN)), (ONE, 0));
    assert_eq!((sin(HALF_TURN), cos(HALF_TURN)), (0, -ONE));
    assert_eq!((sin(-QUARTER_TURN), cos(-QUARTER_TURN)), (-ONE, 0));
    assert_eq!((sin(3 * QUARTER_TURN), cos(3 * QUARTER_TURN)), (-ONE, 0));
    assert_eq!((sin(-HALF_TURN), cos(-HALF_TURN)), (0, -ONE));
}

#[test]
fn sine_at_an_eighth_turn_is_the_strong_mark() {
    assert_eq!(STRONG, 759_248_495);
    assert_eq!(sin(QUARTER_TURN / 2), STRONG);
    assert_eq!(cos(QUARTER_TURN / 2), STRONG);
    assert_eq!(sin(-QUARTER_TURN / 2), -STRONG);
    assert_eq!(cos(3 * QUARTER_TURN / 2), -STRONG);
}

#[test]
fn sine_a_third_of_the_way_up_has_passed_a_half() {
    assert_eq!(sin(357_913_941), 536_880_059);
    assert!(sin(357_913_941) >= ONE / 2);
    assert_eq!(STEEP, 929_879_440);
    assert_eq!(sin(715_827_883), STEEP);
    assert_eq!(cos(357_913_941), STEEP);
}

#[test]
fn sine_near_zero_grows_with_the_angle() {
    // One unit of angle is worth pi / 2 units of sine.
    assert_eq!(sin(1), 1);
    assert_eq!(sin(-1), -1);
    assert_eq!(sin(100), 156);
    assert_eq!(sin(1_000_000), 1_570_490);
    assert_eq!(cos(QUARTER_TURN - 1_000_000), 1_570_490);
}

#[test]
fn sine_is_periodic_odd_and_mirrored() {
    for k in -20..20 {
        let a: i64 = k * 123_456_789 + 17;
        assert_eq!(sin(a + TURN), sin(a));
        assert_eq!(cos(a - 3 * TURN), cos(a));
        assert_eq!(sin(-a), -sin(a));
        assert_eq!(cos(-a), cos(a));
        assert_eq!(sin(a + HALF_TURN), -sin(a));
        assert_eq!(sin(HALF_TURN - a), sin(a));
        assert_eq!(cos(a), sin(a + QUARTER_TURN));
    }
}

#[test]
fn sine_takes_every_angle() {
    for a in [i64::MAX, i64::MIN, i64::MAX - 1, i64::MIN + 1] {
        assert!(-ONE <= sin(a) && sin(a) <= ONE);
        assert!(-ONE <= cos(a) && cos(a) <= ONE);
    }
    assert_eq!(sin(i64::MIN), 0);
    assert_eq!(cos(i64::MIN), ONE);
}

#[test]
fn sine_stays_close_to_the_true_sine() {
    let mut worst: f64 = 0.0;
    let steps: i64 = 4096;
    for k in -steps..steps {
        let a = k * (HALF_TURN / steps);
        let x = a as f64 / 4_294_967_296.0 * std::f64::consts::TAU;
        worst = worst.max((sin(a) as f64 / ONE as f64 - x.sin()).abs());
        worst = worst.max((cos(a) as f64 / ONE as f64 - x.cos()).abs());
    }
    assert!(worst < 0.00001, "worst error {}", worst);
}

#[test]
fn cosine_is_positive_short_of_the_poles() {
    assert!(cos(QUARTER_TURN - 1) >= 1);
    assert!(cos(-(QUARTER_TURN - 1)) >= 1);
    assert!(cos(QUARTER_TURN - 684) > cos(QUARTER_TURN - 1));
}

#[test]
fn light_circles_once_per_period() {
    assert_eq!(LIGHT_PERIOD_MS, 10_000);
    assert_eq!(LIGHT_PITCH, -QUARTER_TURN / 2);
    assert_eq!(light_yaw(0), 0);
    assert_eq!(light_yaw(1), 429_496);
    assert_eq!(light_yaw(2_500), QUARTER_TURN);
    assert_eq!(light_yaw(5_000), -HALF_TURN);
    assert_eq!(light_yaw(7_500), -QUARTER_TURN);
    assert_eq!(light_yaw(9_999), -429_497);
    assert_eq!(light_yaw(10_000), 0);
    assert_eq!(light_yaw(12_500), QUARTER_TURN);
    assert_eq!(light_yaw(u64::MAX), light_yaw(u64::MAX % 10_000));
}
