//! The two collision resolvers: boundary-edge violation and direction-gated
//! rectangle overlap.  Both are pure queries returning the side of contact;
//! neither mutates any obstacle state.

use vstd::prelude::*;
use crate::geometry::{Rect, Vec2};

verus! {

/// The resolved side of contact, the return contract of both resolvers.
#[derive(Clone, Copy, Debug, PartialEq, Eq, Hash, Structural)]
pub enum BounceDirection {
    Up,
    Left,
    Down,
    Right,
}

impl BounceDirection {
    /// Whether a bounce in this direction reflects the vertical velocity
    /// component.
    pub open spec fn is_vertical(self) -> bool {
        self == BounceDirection::Up || self == BounceDirection::Down
    }

    /// Whether a bounce in this direction reflects the horizontal velocity
    /// component.
    pub open spec fn is_horizontal(self) -> bool {
        self == BounceDirection::Left || self == BounceDirection::Right
    }
}

/// Which single boundary edge the box has violated, in the fixed priority
/// order left, right, top, bottom; `None` when fully contained.  The box
/// must bounce toward the returned direction to stay inside.
pub open spec fn boundary_hit(bounding_box: Rect, boundary: Rect) -> Option<BounceDirection> {
    if boundary.spec_contains(bounding_box) {
        None
    } else if bounding_box.spec_left() < boundary.spec_left() {
        Some(BounceDirection::Right)
    } else if bounding_box.spec_right() > boundary.spec_right() {
        Some(BounceDirection::Left)
    } else if bounding_box.spec_top() < boundary.spec_top() {
        Some(BounceDirection::Down)
    } else if bounding_box.spec_bottom() > boundary.spec_bottom() {
        Some(BounceDirection::Up)
    } else {
        // Outside yet no edge violated would be a measurement
        // inconsistency: resolved as no collision, never a crash.  In
        // exact arithmetic this case cannot arise (lemma_boundary_complete).
        None
    }
}

/// Check collision between some moving object with a bounding box and the
/// edges of some boundary.  If the boundary rectangle does not fully contain
/// the bounding box, return the direction the object must bounce to stay
/// within the boundary.
pub fn collide_with_boundary(bounding_box: &Rect, boundary: &Rect) -> (r: Option<
    BounceDirection,
>)
    ensures
        r == boundary_hit(*bounding_box, *boundary),
{
    if !boundary.contains_rect(bounding_box) {
        if bounding_box.left() < boundary.left() {
            Some(BounceDirection::Right)
        } else if bounding_box.right() > boundary.right() {
            Some(BounceDirection::Left)
        } else if bounding_box.top() < boundary.top() {
            Some(BounceDirection::Down)
        } else if bounding_box.bottom() > boundary.bottom() {
            Some(BounceDirection::Up)
        } else {
            // Outside but not colliding: a geometric inconsistency,
            // resolved as a no-op.  Exact arithmetic never reaches this.
            None
        }
    } else {
        None
    }
}

/// The edge checks are complete: a box the boundary does not contain
/// always violates one of the four edges, so the defensive
/// no-edge-violated branch can never fire in exact arithmetic.
pub proof fn lemma_boundary_complete(bounding_box: Rect, boundary: Rect)
    requires
        !boundary.spec_contains(bounding_box),
    ensures
        boundary_hit(bounding_box, boundary) is Some,
{
}

/// A rectangle fully inside the boundary violates no edge.
pub proof fn lemma_boundary_containment(bounding_box: Rect, boundary: Rect)
    requires
        boundary.spec_contains(bounding_box),
    ensures
        boundary_hit(bounding_box, boundary) is None,
{
}

/// A box past the left boundary edge always resolves to the left edge,
/// a rightward bounce, whatever the other edges do: the left edge has the
/// highest priority.
pub proof fn lemma_boundary_left_exit(bounding_box: Rect, boundary: Rect)
    requires
        bounding_box.spec_left() < boundary.spec_left(),
    ensures
        boundary_hit(bounding_box, boundary) == Some(BounceDirection::Right),
{
}

/// How far the moving box has penetrated past the obstacle's bottom edge
/// (eligible only when moving upward, `dir.y < 0`).
pub open spec fn depth_bottom(moving: Rect, obstacle: Rect) -> int {
    obstacle.spec_bottom() - moving.spec_top()
}

/// Penetration past the obstacle's right edge (eligible when `dir.x < 0`).
pub open spec fn depth_right(moving: Rect, obstacle: Rect) -> int {
    obstacle.spec_right() - moving.spec_left()
}

/// Penetration past the obstacle's left edge (eligible when `dir.x > 0`).
pub open spec fn depth_left(moving: Rect, obstacle: Rect) -> int {
    moving.spec_right() - obstacle.spec_left()
}

/// Penetration past the obstacle's top edge (eligible when `dir.y > 0`).
pub open spec fn depth_top(moving: Rect, obstacle: Rect) -> int {
    moving.spec_bottom() - obstacle.spec_top()
}

/// Fold one candidate edge into the running best: a candidate wins only if
/// it is eligible and strictly shallower than the best so far, so on equal
/// depths the earlier edge in the fixed order keeps its place.
pub open spec fn better_candidate(
    best: Option<(int, BounceDirection)>,
    eligible: bool,
    depth: int,
    side: BounceDirection,
) -> Option<(int, BounceDirection)> {
    if eligible && depth >= 0 {
        match best {
            None => Some((depth, side)),
            Some((d, _)) => if depth < d {
                Some((depth, side))
            } else {
                best
            },
        }
    } else {
        best
    }
}

/// The direction-gated resolution: among the edges the moving direction
/// points into, the one with the least penetration depth, ties broken in
/// the fixed order bottom, right, left, top.  `None` when no edge is
/// eligible despite the overlap (for instance a zero direction).
pub open spec fn gated_hit(dir: Vec2, moving: Rect, obstacle: Rect) -> Option<
    (int, BounceDirection),
> {
    let b0 = better_candidate(
        None,
        dir.y < 0,
        depth_bottom(moving, obstacle),
        BounceDirection::Down,
    );
    let b1 = better_candidate(b0, dir.x < 0, depth_right(moving, obstacle), BounceDirection::Right);
    let b2 = better_candidate(b1, dir.x > 0, depth_left(moving, obstacle), BounceDirection::Left);
    better_candidate(b2, dir.y > 0, depth_top(moving, obstacle), BounceDirection::Up)
}

/// The full rectangle resolver: `None` when the boxes do not overlap, else
/// the direction-gated struck side.
pub open spec fn rect_hit(dir: Vec2, moving: Rect, obstacle: Rect) -> Option<BounceDirection> {
    if moving.spec_intersects(obstacle) {
        match gated_hit(dir, moving, obstacle) {
            Some((d, side)) => Some(side),
            None => None,
        }
    } else {
        None
    }
}

/// Check collision between an object moving in `self_direction` with a
/// bounding box `self_bounding_box`, and some other bounding box.  If the
/// bounding boxes overlap, return the direction the moving object should
/// bounce; otherwise return `None`.  An overlap with no direction-eligible
/// edge is a geometric inconsistency and resolves to `None` as well, a
/// no-op for the caller.
pub fn collide_with_rect(
    self_direction: &Vec2,
    self_bounding_box: &Rect,
    other_bounding_box: &Rect,
) -> (r: Option<BounceDirection>)
    requires
        self_bounding_box.wf(),
        other_bounding_box.wf(),
    ensures
        r == rect_hit(*self_direction, *self_bounding_box, *other_bounding_box),
{
    if !self_bounding_box.intersects(other_bounding_box) {
        return None;
    }
    let inside_bottom: i64 = other_bounding_box.bottom() - self_bounding_box.top();
    let inside_right: i64 = other_bounding_box.right() - self_bounding_box.left();
    let inside_left: i64 = self_bounding_box.right() - other_bounding_box.left();
    let inside_top: i64 = self_bounding_box.bottom() - other_bounding_box.top();

    let mut best: Option<(i64, BounceDirection)> = None;
    if self_direction.y < 0 && inside_bottom >= 0 {
        best = Some((inside_bottom, BounceDirection::Down));
    }
    best = replace_if_shallower(best, self_direction.x < 0, inside_right, BounceDirection::Right);
    best = replace_if_shallower(best, self_direction.x > 0, inside_left, BounceDirection::Left);
    best = replace_if_shallower(best, self_direction.y > 0, inside_top, BounceDirection::Up);

    match best {
        Some((_, side)) => Some(side),
        None => None,
    }
}

/// Direction gating: the resolver never reports a side the moving body is
/// not heading into.  A struck bottom edge implies upward motion, a struck
/// left edge implies rightward motion, and so on.
pub proof fn lemma_direction_gated(dir: Vec2, moving: Rect, obstacle: Rect)
    ensures
        rect_hit(dir, moving, obstacle) == Some(BounceDirection::Down) ==> dir.y < 0,
        rect_hit(dir, moving, obstacle) == Some(BounceDirection::Right) ==> dir.x < 0,
        rect_hit(dir, moving, obstacle) == Some(BounceDirection::Left) ==> dir.x > 0,
        rect_hit(dir, moving, obstacle) == Some(BounceDirection::Up) ==> dir.y > 0,
{
}

/// A body moving strictly rightward that overlaps an obstacle resolves to
/// the obstacle's left edge — the only edge a rightward approach can
/// strike — never to a side that would require leftward motion.
pub proof fn lemma_rightward_strikes_left(dir: Vec2, moving: Rect, obstacle: Rect)
    requires
        dir.x > 0,
        dir.y == 0,
        moving.spec_intersects(obstacle),
    ensures
        rect_hit(dir, moving, obstacle) == Some(BounceDirection::Left),
{
}

/// Determinism under ties: when the bottom and right edges are both
/// eligible with exactly equal minimum penetration depth, the fixed
/// priority order picks the bottom edge, every time.
pub proof fn lemma_tie_prefers_bottom(dir: Vec2, moving: Rect, obstacle: Rect)
    requires
        dir.x < 0,
        dir.y < 0,
        moving.spec_intersects(obstacle),
        depth_bottom(moving, obstacle) == depth_right(moving, obstacle),
    ensures
        rect_hit(dir, moving, obstacle) == Some(BounceDirection::Down),
{
}

/// A side is only ever reported under an overlap: without a strict
/// intersection the resolver returns `None`.
pub proof fn lemma_hit_needs_overlap(dir: Vec2, moving: Rect, obstacle: Rect)
    ensures
        rect_hit(dir, moving, obstacle) is Some ==> moving.spec_intersects(obstacle),
{
}

/// One step of the minimum-depth fold over the four candidate edges.
fn replace_if_shallower(
    best: Option<(i64, BounceDirection)>,
    eligible: bool,
    depth: i64,
    side: BounceDirection,
) -> (r: Option<(i64, BounceDirection)>)
    ensures
        (match r {
            Some((d, s)) => better_candidate(
                match best {
                    Some((bd, bs)) => Some((bd as int, bs)),
                    None => None,
                },
                eligible,
                depth as int,
                side,
            ) == Some((d as int, s)),
            None => better_candidate(
                match best {
                    Some((bd, bs)) => Some((bd as int, bs)),
                    None => None,
                },
                eligible,
                depth as int,
                side,
            ) is None,
        }),
{
    if eligible && depth >= 0 {
        match best {
            None => Some((depth, side)),
            Some((d, s)) => if depth < d {
                Some((depth, side))
            } else {
                Some((d, s))
            },
        }
    } else {
        best
    }
}

} // verus!
