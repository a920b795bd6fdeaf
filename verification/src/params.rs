//! The maze's geometric and generative parameters, in fixed point
//! (`SCALE` = 65536 subunits per world unit, or per radian for angles).

use vstd::prelude::*;

verus! {

/// Width of a tunnel's cross-section: 3 units.
pub const TUNNEL_WIDTH_FIX: i64 = 196608;

/// Height of a tunnel's cross-section and of every room: 4 units.
pub const TUNNEL_HEIGHT_FIX: i64 = 262144;

/// Radius of the circle on which a landing's doors stand: 2 units.
pub const LANDING_RADIUS_FIX: i64 = 131072;

/// Number of cross-section segments a tunnel is extruded through.
pub const TUNNEL_SUBDIVISIONS: usize = 20;

/// Shortest tunnel: 20 units.
pub const MIN_TUNNEL_LENGTH_FIX: i64 = 1310720;

/// Longest tunnel: 60 units.
pub const MAX_TUNNEL_LENGTH_FIX: i64 = 3932160;

/// Largest twist of a tunnel's far end, either way: 120 degrees in
/// fixed-point radians.
pub const MAX_TWIST_FIX: i64 = 137258;

/// Once this many landings exist, expansion turns strongly toward dead ends.
pub const TARGET_LANDING_COUNT: usize = 100;

/// Hard bound on the recursive expansion depth.  Termination of the
/// generator is otherwise only probabilistic, so the depth is capped; a
/// branch that reaches the cap closes with a dead end.
pub const MAX_RECURSION_DEPTH: u32 = 24;

/// `2 * atan((TUNNEL_WIDTH/2) / LANDING_RADIUS)` in fixed-point radians: the
/// smallest bearing gap at which two door mouths on a landing's circle do
/// not overlap.
pub const MIN_ANGLE_FIX: i64 = 84345;

/// Safety margin added to the sampling floor of branch angles (0.02
/// radians): fixed-point rounding may shift realized bearings slightly, and
/// the margin keeps every realized gap strictly beyond `MIN_ANGLE_FIX`.
pub const ANGLE_MARGIN_FIX: i64 = 1311;

/// The cosine of `MIN_ANGLE_FIX` is exactly 7/25: with `t = tan(angle/2) =
/// 3/4`, `cos(angle) = (1 - t*t) / (1 + t*t) = 7/25`.  The angular-gap check
/// compares cosines through this exact fraction.
pub const COS_MIN_ANGLE_NUM: i64 = 7;

/// Denominator of the exact cosine of `MIN_ANGLE_FIX`.
pub const COS_MIN_ANGLE_DEN: i64 = 25;

/// A movement segment closer than this to a solid face is blocked: 0.1 unit.
pub const BLOCK_EPS_FIX: i64 = 6554;

/// Skeleton nodes stay inside this coordinate bound (2048 units), half of
/// `COORD_LIMIT`, leaving the realizer room for door and wall offsets.
pub const GEN_LIMIT: i64 = 134217728;

} // verus!
