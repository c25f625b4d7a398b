//! The constants of a run: window, disc size, population and starting position.

use vstd::prelude::*;

verus! {

/// Width of the window, in pixels.
pub const WINDOW_WIDTH: u32 = 640;

/// Height of the window, in pixels.
pub const WINDOW_HEIGHT: u32 = 480;

/// Radius shared by every body, in pixels.
pub const CIRCLE_RADIUS: i16 = 10;

/// Number of autonomous bodies created at startup.
pub const BODY_COUNT: usize = 10;

/// Horizontal starting position of the player.
pub const PLAYER_START_X: i32 = 100;

/// Vertical starting position of the player.
pub const PLAYER_START_Y: i32 = 100;

} // verus!
