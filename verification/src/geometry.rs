//! Geometry primitives: 2D fixed-point vectors and axis-aligned rectangles.
//!
//! The coordinate system follows the screen convention: `x` grows rightward,
//! `y` grows downward, so a rectangle's top edge is `min.y` and its bottom
//! edge is `max.y`.  Touching edges do not count as intersecting: only a
//! strictly positive overlap area is a collision.

use vstd::prelude::*;
use crate::fixed::{div_trunc, COORD_LIMIT};

verus! {

/// A 2D vector in fixed-point coordinates.
#[derive(Clone, Copy, Debug, PartialEq, Eq, Structural)]
pub struct Vec2 {
    pub x: i64,
    pub y: i64,
}

impl Vec2 {
    pub open spec fn spec_zero() -> Vec2 {
        Vec2 { x: 0, y: 0 }
    }

    pub fn zero() -> (r: Vec2)
        ensures
            r == Vec2::spec_zero(),
    {
        Vec2 { x: 0, y: 0 }
    }

    /// The squared magnitude, the quantity the unit-direction invariant
    /// speaks of.
    pub open spec fn norm_sq(self) -> int {
        self.x * self.x + self.y * self.y
    }
}

/// An axis-aligned rectangle given by its two corners, `min` at the top left
/// and `max` at the bottom right.
#[derive(Clone, Copy, Debug, PartialEq, Eq, Structural)]
pub struct Rect {
    pub min: Vec2,
    pub max: Vec2,
}

impl Rect {
    /// A well-formed rectangle: corners ordered and inside the coordinate
    /// range the resolvers accept.
    pub open spec fn wf(self) -> bool {
        &&& self.min.x <= self.max.x
        &&& self.min.y <= self.max.y
        &&& -COORD_LIMIT <= self.min.x
        &&& -COORD_LIMIT <= self.min.y
        &&& self.max.x <= COORD_LIMIT
        &&& self.max.y <= COORD_LIMIT
    }

    pub open spec fn spec_left(self) -> i64 {
        self.min.x
    }

    pub open spec fn spec_right(self) -> i64 {
        self.max.x
    }

    pub open spec fn spec_top(self) -> i64 {
        self.min.y
    }

    pub open spec fn spec_bottom(self) -> i64 {
        self.max.y
    }

    pub open spec fn spec_width(self) -> int {
        self.max.x - self.min.x
    }

    pub open spec fn spec_center(self) -> Vec2 {
        Vec2 {
            x: div_trunc(self.min.x + self.max.x, 2) as i64,
            y: div_trunc(self.min.y + self.max.y, 2) as i64,
        }
    }

    /// The rectangle of the given size whose center is `c`: `min` sits half
    /// a size before the center and the extent is exactly `size`.
    pub open spec fn spec_from_center_size(c: Vec2, size: Vec2) -> Rect {
        Rect {
            min: Vec2 {
                x: (c.x - div_trunc(size.x as int, 2)) as i64,
                y: (c.y - div_trunc(size.y as int, 2)) as i64,
            },
            max: Vec2 {
                x: (c.x - div_trunc(size.x as int, 2) + size.x) as i64,
                y: (c.y - div_trunc(size.y as int, 2) + size.y) as i64,
            },
        }
    }

    /// `self` fully contains `other`: no edge of `other` lies outside `self`.
    pub open spec fn spec_contains(self, other: Rect) -> bool {
        &&& self.min.x <= other.min.x
        &&& other.max.x <= self.max.x
        &&& self.min.y <= other.min.y
        &&& other.max.y <= self.max.y
    }

    /// The two rectangles overlap with strictly positive area; rectangles
    /// that merely touch along an edge do not intersect.
    pub open spec fn spec_intersects(self, other: Rect) -> bool {
        &&& self.min.x < other.max.x
        &&& other.min.x < self.max.x
        &&& self.min.y < other.max.y
        &&& other.min.y < self.max.y
    }

    pub fn left(&self) -> (r: i64)
        ensures
            r == self.spec_left(),
    {
        self.min.x
    }

    pub fn right(&self) -> (r: i64)
        ensures
            r == self.spec_right(),
    {
        self.max.x
    }

    pub fn top(&self) -> (r: i64)
        ensures
            r == self.spec_top(),
    {
        self.min.y
    }

    pub fn bottom(&self) -> (r: i64)
        ensures
            r == self.spec_bottom(),
    {
        self.max.y
    }

    pub fn width(&self) -> (r: i64)
        requires
            self.wf(),
        ensures
            r == self.spec_width(),
            0 <= r <= 2 * COORD_LIMIT,
    {
        self.max.x - self.min.x
    }

    pub fn center(&self) -> (r: Vec2)
        requires
            self.wf(),
        ensures
            r == self.spec_center(),
    {
        Vec2 {
            x: crate::fixed::div_by(self.min.x + self.max.x, 2),
            y: crate::fixed::div_by(self.min.y + self.max.y, 2),
        }
    }

    pub fn from_center_size(c: Vec2, size: Vec2) -> (r: Rect)
        requires
            -0x4000_0000_0000_0000 < c.x + size.x < 0x4000_0000_0000_0000,
            -0x4000_0000_0000_0000 < c.y + size.y < 0x4000_0000_0000_0000,
            -0x4000_0000_0000_0000 < c.x - size.x < 0x4000_0000_0000_0000,
            -0x4000_0000_0000_0000 < c.y - size.y < 0x4000_0000_0000_0000,
            0 <= size.x,
            0 <= size.y,
        ensures
            r == Rect::spec_from_center_size(c, size),
    {
        let hx: i64 = crate::fixed::div_by(size.x, 2);
        let hy: i64 = crate::fixed::div_by(size.y, 2);
        Rect {
            min: Vec2 { x: c.x - hx, y: c.y - hy },
            max: Vec2 { x: c.x - hx + size.x, y: c.y - hy + size.y },
        }
    }

    pub fn contains_rect(&self, other: &Rect) -> (r: bool)
        ensures
            r == self.spec_contains(*other),
    {
        self.min.x <= other.min.x && other.max.x <= self.max.x && self.min.y <= other.min.y
            && other.max.y <= self.max.y
    }

    pub fn intersects(&self, other: &Rect) -> (r: bool)
        ensures
            r == self.spec_intersects(*other),
    {
        self.min.x < other.max.x && other.min.x < self.max.x && self.min.y < other.max.y
            && other.min.y < self.max.y
    }
}

/// Intersection is symmetric: the overlap test does not depend on which
/// rectangle is the moving one.
pub proof fn lemma_intersects_symmetric(a: Rect, b: Rect)
    ensures
        a.spec_intersects(b) == b.spec_intersects(a),
{
}

/// Containment is consistent with the edge queries: inside a containing
/// rectangle, no edge of the inner rectangle lies outside the outer one.
pub proof fn lemma_contains_edges(outer: Rect, inner: Rect)
    requires
        outer.spec_contains(inner),
    ensures
        inner.spec_left() >= outer.spec_left(),
        inner.spec_right() <= outer.spec_right(),
        inner.spec_top() >= outer.spec_top(),
        inner.spec_bottom() <= outer.spec_bottom(),
{
}

} // verus!
