//! A two-player pong game whose paddles are steered by tracking a physical
//! object in front of a camera. The library holds the tracking pipeline
//! (grayscale column profiles, background calibration, controller locator),
//! the ball physics, the paddle geometry and the phase state machine.
//!
//! All geometry and physics use fixed-point arithmetic: lengths are stored in
//! thousandths of a pixel, so that every quantity is an integer.

use vstd::prelude::*;

pub mod ball;
pub mod camera;
pub mod paddle;
pub mod phase;
pub mod plays_pong;

verus! {

/// Width of the game window in pixels.
pub const WINDOW_WIDTH: u32 = 1200;

/// Height of the game window in pixels.
pub const WINDOW_HEIGHT: u32 = 700;

/// Fixed-point scale: coordinates, velocities and direction components are
/// stored in thousandths (one pixel is `FP` units).
pub const FP: i64 = 1000;

/// Width of the game window in fixed-point units.
pub const WINDOW_WIDTH_FP: i64 = 1_200_000;

/// Height of the game window in fixed-point units.
pub const WINDOW_HEIGHT_FP: i64 = 700_000;

} // verus!
