//! The walls of the window: where a body may be, and what happens to one
//! that has moved past a wall.
//!
//! Positions and velocities are signed integers in any scale that keeps order
//! and sign; see the module `ordinal`.

use vstd::prelude::*;
use crate::config::CIRCLE_RADIUS;

verus! {

/// The least and the greatest position of a centre along an axis of the
/// given extent: a radius away from either wall.
pub open spec fn span_of(extent: u32) -> (int, int) {
    (CIRCLE_RADIUS as int, extent - CIRCLE_RADIUS)
}

/// A coordinate that has been moved and the velocity along its axis, after
/// the walls at `low` and `high` had their say: below `low` the position
/// becomes `low` and the velocity is turned round; then, above `high`, the
/// position becomes `high` and the velocity is turned round.
pub open spec fn bounced(moved: int, velocity: int, low: int, high: int) -> (int, int) {
    let (position, speed) = if moved < low {
        (low, -velocity)
    } else {
        (moved, velocity)
    };
    if position > high {
        (high, -speed)
    } else {
        (position, speed)
    }
}

/// The span of positions along an axis of the given extent, in whole pixels:
/// 10 to 630 across the window of 640, 10 to 470 down the window of 480.
pub fn span(extent: u32) -> (r: (i64, i64))
    ensures
        (r.0 as int, r.1 as int) == span_of(extent),
        extent >= 2 * CIRCLE_RADIUS ==> r.0 <= r.1,
{
    let radius: i64 = CIRCLE_RADIUS as i64;
    (radius, extent as i64 - radius)
}

/// Brings a coordinate that has been moved back between the walls of its
/// axis, and turns the velocity round if it had passed one.
///
/// Where `low` is not above `high`, the position ends between the two,
/// whatever the velocity and however far the move went. Only a coordinate
/// that passed a wall is changed, and only the velocity along its own axis
/// is turned round: the function sees one axis and leaves the other alone.
/// The least 64-bit integer has no negative and is left out as a velocity.
pub fn bounce(moved: i64, velocity: i64, low: i64, high: i64) -> (r: (i64, i64))
    requires
        velocity != i64::MIN,
    ensures
        (r.0 as int, r.1 as int) == bounced(moved as int, velocity as int, low as int, high as int),
        low <= high ==> low <= r.0 <= high,
        low <= moved <= high ==> r.0 == moved && r.1 == velocity,
        low <= high && moved < low ==> r.0 == low && r.1 == -velocity,
        low <= high && moved > high ==> r.0 == high && r.1 == -velocity,
        r.1 != i64::MIN,
{
    let mut position = moved;
    let mut speed = velocity;
    if position < low {
        position = low;
        speed = -speed;
    }
    if position > high {
        position = high;
        speed = -speed;
    }
    (position, speed)
}

/// A wall takes nothing from a body's speed: the velocity after is the
/// velocity before, or its negative where the coordinate had passed a wall.
pub proof fn lemma_bounce_keeps_speed(moved: int, velocity: int, low: int, high: int)
    requires
        low <= high,
    ensures
        bounced(moved, velocity, low, high).1 == if low <= moved <= high {
            velocity
        } else {
            -velocity
        },
{
}

} // verus!
