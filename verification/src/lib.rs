//! A fixed-point orbit camera controller.
//!
//! The camera sits on a sphere around a fixed target. Pointer motion turns
//! it, the scroll wheel changes its distance, and every quantity is an
//! integer, so the same inputs give the same pose on every machine, bit for
//! bit.
//!
//! # Units
//!
//! - Angles are binary: `angle::TURN` units make one revolution. Yaw is kept
//!   in `[-HALF_TURN, HALF_TURN)` and wraps exactly; pitch is kept within the
//!   configured limit, strictly short of a quarter turn.
//! - Lengths (radius, target, position) are counted in a unit that the host
//!   chooses, for instance a micrometre.
//! - Pointer and scroll readings are device counts. A reading at either end
//!   of `i64` stands for one without a finite value and is skipped.
//! - Sines and cosines are scaled by `trig::ONE`.
//!
//! # One frame
//!
//! `controller::OrbitController::update` takes the frame's input, turns the
//! camera by the pointer samples if the primary button is held, moves it by
//! the scroll samples, empties both queues and returns the pose: the
//! position `target + radius * (cos yaw cos pitch, sin pitch, sin yaw cos
//! pitch)` and the target it faces. The orientation is never stored; the
//! host derives it by looking from the position at the target.
//!
//! The module `orbit` states each step as a function on mathematical
//! integers, `laws` and `decay` prove what holds of every frame, and `trig`
//! what holds of the sine and the cosine.

pub mod angle;
pub mod config;
pub mod controller;
pub mod decay;
pub mod input;
pub mod laws;
pub mod light;
pub mod orbit;
pub mod pose;
pub mod trig;
