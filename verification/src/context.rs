//! Per-tick inputs from the environment: elapsed time, the drawable area and
//! the steering key state.  The engine consumes these as plain values; input
//! polling and frame timing live outside it.

use vstd::prelude::*;
use crate::fixed::SCALE;
use crate::geometry::Rect;

verus! {

/// Bound on the drawable area's coordinates.
pub const AREA_LIMIT: i64 = 0x4000_0000;

/// Longest accepted tick, in fixed-point seconds: about four and a half
/// hours, far beyond any real frame delta; bounded only so that the
/// fixed-point products of one position advance cannot overflow.
pub const DT_LIMIT: i64 = 0x4000_0000;

/// The explicit per-tick input context, passed by reference into each
/// update.
pub struct Context {
    /// Elapsed time since the previous tick, in fixed-point seconds.
    pub dt: i64,
    /// The current drawable bounds; may change between ticks.
    pub drawable_area: Rect,
    /// Whether the steer-left key is held.
    pub left_down: bool,
    /// Whether the steer-right key is held.
    pub right_down: bool,
}

/// How far anything moving at one area-width per second travels in one
/// tick: the shared speed scale of the ball and the paddle.
pub open spec fn scale_step(ctx: &Context) -> int {
    crate::fixed::div_trunc(ctx.drawable_area.spec_width() * ctx.dt, SCALE as int)
}

impl Context {
    /// A well-formed tick input: a nonnegative bounded time delta and a
    /// well-formed drawable area within the coordinate bound.
    pub open spec fn wf(&self) -> bool {
        &&& 0 <= self.dt <= DT_LIMIT
        &&& self.drawable_area.min.x <= self.drawable_area.max.x
        &&& self.drawable_area.min.y <= self.drawable_area.max.y
        &&& -AREA_LIMIT <= self.drawable_area.min.x
        &&& -AREA_LIMIT <= self.drawable_area.min.y
        &&& self.drawable_area.max.x <= AREA_LIMIT
        &&& self.drawable_area.max.y <= AREA_LIMIT
    }
}

} // verus!
