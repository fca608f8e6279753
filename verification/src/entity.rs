//! The capability shared by every simulated entity: a bounding box for
//! collision purposes and a reset back to the initial state.  Rendering is
//! deliberately not part of this interface; it has no bearing on collision
//! correctness and stays outside the engine.

use vstd::prelude::*;
use crate::context::Context;
use crate::geometry::Rect;

verus! {

pub trait Entity: Sized {
    /// The entity's internal invariant, established by construction and
    /// preserved by every update.
    spec fn inv(&self) -> bool;

    /// The bounding box the entity presents for collisions under the given
    /// tick inputs.
    spec fn spec_bounding_box(&self, ctx: &Context) -> Rect;

    /// How a reset state relates to the state before the reset.
    spec fn resets_to(&self, post: &Self) -> bool;

    fn get_bounding_box(&self, ctx: &Context) -> (r: Rect)
        requires
            self.inv(),
            ctx.wf(),
        ensures
            r == self.spec_bounding_box(ctx),
    ;

    fn reset(&mut self)
        requires
            old(self).inv(),
        ensures
            final(self).inv(),
            old(self).resets_to(final(self)),
    ;
}

} // verus!
