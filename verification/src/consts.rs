//! Fixed numeric configuration of the travel geometry and the song clock.
//!
//! Positions are milliunits along the one-dimensional travel axis, times are
//! milliseconds of song time, speeds are milliunits per millisecond.

use vstd::prelude::*;

verus! {

/// Travel coordinate at which every arrow starts its journey.
pub const ARROW_JOURNEY_START_POSITION: i64 = -400_000;

/// Travel coordinate of the fixed target slots; arrows should arrive here at
/// their intended hit time.
pub const ARROW_JOURNEY_END_POSITION: i64 = 200_000;

/// Length of the journey from start to target.
pub const ARROW_JOURNEY_DISTANCE: i64 = 600_000;

/// Base travel speed; the speed-class multiplier is applied to it.
pub const ARROW_JOURNEY_SPEED: i64 = 800;

/// Half-width of the symmetric tolerance window around the target within
/// which a hit may register.
pub const ARROW_CLICK_THRESHOLD: i64 = 20_000;

/// Largest magnitude of the song clock a session accepts, in milliseconds.
pub const MAX_SESSION_TIME_MS: i64 = 1_000_000_000_000;

/// Largest single time step the motion integrator accepts; a whole session
/// never spans more than this.
pub const MAX_TIME_DELTA_MS: i64 = 2_000_000_000_000;

/// Largest speed value any speed class produces.
pub const MAX_ARROW_SPEED_VALUE: i64 = 1_200;

} // verus!
