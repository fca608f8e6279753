//! The paddle: a box anchored to the bottom of the drawable area, steered
//! horizontally by key state and clamped so it never leaves the area.

use vstd::prelude::*;
use crate::context::{Context, DT_LIMIT};
use crate::entity::Entity;
use crate::fixed::{div_trunc, POS_LIMIT, SCALE};
use crate::geometry::{Rect, Vec2};

verus! {

/// Paddle height as a share of the area width: 3 parts in 100.
pub const PADDLE_HEIGHT_NUM: i64 = 3;

/// Denominator of the paddle-height share.
pub const PADDLE_HEIGHT_DEN: i64 = 100;

/// Paddle width to height ratio.
pub const PADDLE_RATIO: i64 = 8;

/// The paddle.  `pos` is its offset from the anchor point one paddle height
/// above the bottom-center of the drawable area; only `pos.x` ever moves.
pub struct Player {
    pub pos: Vec2,
}

/// The paddle height under the given tick inputs.
pub open spec fn paddle_height(ctx: &Context) -> int {
    div_trunc(PADDLE_HEIGHT_NUM * ctx.drawable_area.spec_width(), PADDLE_HEIGHT_DEN as int)
}

/// The paddle size under the given tick inputs.
pub open spec fn paddle_size(ctx: &Context) -> Vec2 {
    Vec2 {
        x: (PADDLE_RATIO * paddle_height(ctx)) as i64,
        y: paddle_height(ctx) as i64,
    }
}

/// The paddle's bounding box recentered on the area center; its edges give
/// the clamp bounds that keep the paddle inside the area.
pub open spec fn centered_paddle_box(ctx: &Context) -> Rect {
    Rect::spec_from_center_size(ctx.drawable_area.spec_center(), paddle_size(ctx))
}

/// The paddle state after one tick: move by the held keys, then clamp the
/// horizontal offset so the paddle stays within the area.
pub open spec fn player_update_spec(p: Player, ctx: &Context) -> Player {
    let moved = p.pos.x + (if ctx.right_down { crate::context::scale_step(ctx) } else { 0 }) - (if ctx.left_down {
        crate::context::scale_step(ctx)
    } else {
        0
    });
    let lo = ctx.drawable_area.spec_left() - centered_paddle_box(ctx).spec_left();
    let hi = ctx.drawable_area.spec_right() - centered_paddle_box(ctx).spec_right();
    let clamped = if moved < lo {
        lo
    } else if moved > hi {
        hi
    } else {
        moved
    };
    Player { pos: Vec2 { x: clamped as i64, y: p.pos.y } }
}

impl Default for Player {
    /// The initial paddle: centered, zero offset.
    fn default() -> (p: Player)
        ensures
            p.pos == Vec2::spec_zero(),
            p.inv(),
    {
        Player { pos: Vec2::zero() }
    }
}

impl Entity for Player {
    open spec fn inv(&self) -> bool {
        &&& -POS_LIMIT <= self.pos.x <= POS_LIMIT
        &&& -POS_LIMIT <= self.pos.y <= POS_LIMIT
    }

    open spec fn spec_bounding_box(&self, ctx: &Context) -> Rect {
        Rect::spec_from_center_size(
            Vec2 {
                x: (ctx.drawable_area.spec_center().x + self.pos.x) as i64,
                y: (ctx.drawable_area.spec_bottom() - paddle_height(ctx) + self.pos.y) as i64,
            },
            paddle_size(ctx),
        )
    }

    open spec fn resets_to(&self, post: &Self) -> bool {
        post.pos == Vec2::spec_zero()
    }

    fn get_bounding_box(&self, ctx: &Context) -> (r: Rect) {
        let w: i64 = ctx.drawable_area.width();
        let h: i64 = crate::fixed::div_by(PADDLE_HEIGHT_NUM * w, PADDLE_HEIGHT_DEN);
        proof {
            lemma_paddle_height_bounds(ctx);
        }
        let size = Vec2 { x: PADDLE_RATIO * h, y: h };
        let c = ctx.drawable_area.center();
        let center = Vec2 { x: c.x + self.pos.x, y: ctx.drawable_area.bottom() - h + self.pos.y };
        Rect::from_center_size(center, size)
    }

    fn reset(&mut self) {
        self.pos = Vec2::zero();
    }
}

/// The paddle height and width are nonnegative, and the paddle is never
/// wider than the area itself.
pub proof fn lemma_paddle_height_bounds(ctx: &Context)
    requires
        ctx.wf(),
    ensures
        0 <= paddle_height(ctx),
        PADDLE_HEIGHT_NUM * ctx.drawable_area.spec_width() <= 0x4000_0000_0000_0000,
        PADDLE_RATIO * paddle_height(ctx) <= ctx.drawable_area.spec_width(),
{
    let w = ctx.drawable_area.spec_width();
    let h = paddle_height(ctx);
    vstd::arithmetic::div_mod::lemma_div_pos_is_pos(PADDLE_HEIGHT_NUM * w, PADDLE_HEIGHT_DEN as int);
    vstd::arithmetic::div_mod::lemma_remainder_lower(PADDLE_HEIGHT_NUM * w, PADDLE_HEIGHT_DEN as int);
    assert(h * PADDLE_HEIGHT_DEN <= PADDLE_HEIGHT_NUM * w);
}

impl Player {
    /// One paddle tick: steer by the held keys scaled by elapsed time, then
    /// clamp the offset so the paddle's box stays horizontally inside the
    /// drawable area.
    pub fn update(&mut self, ctx: &Context)
        requires
            old(self).inv(),
            ctx.wf(),
        ensures
            final(self).inv(),
            *final(self) == player_update_spec(*old(self), ctx),
            final(self).spec_bounding_box(ctx).spec_left() >= ctx.drawable_area.spec_left(),
            final(self).spec_bounding_box(ctx).spec_right() <= ctx.drawable_area.spec_right(),
    {
        let w: i64 = ctx.drawable_area.width();
        proof {
            assert(0 <= w * ctx.dt <= 0x2000_0000_0000_0000) by (nonlinear_arith)
                requires
                    0 <= w <= 0x8000_0000,
                    0 <= ctx.dt <= DT_LIMIT,
                    DT_LIMIT == 0x4000_0000,
            ;
        }
        let step: i64 = crate::fixed::div_by(w * ctx.dt, SCALE);
        proof {
            vstd::arithmetic::div_mod::lemma_div_pos_is_pos(w * ctx.dt, SCALE as int);
            vstd::arithmetic::div_mod::lemma_div_is_ordered_by_denominator(w * ctx.dt, 1, SCALE as int);
            vstd::arithmetic::div_mod::lemma_div_basics(w * ctx.dt);
        }
        let mut x: i64 = self.pos.x;
        if ctx.right_down {
            x = x + step;
        }
        if ctx.left_down {
            x = x - step;
        }
        let h: i64 = crate::fixed::div_by(PADDLE_HEIGHT_NUM * w, PADDLE_HEIGHT_DEN);
        proof {
            lemma_paddle_height_bounds(ctx);
        }
        let size = Vec2 { x: PADDLE_RATIO * h, y: h };
        let cbox = Rect::from_center_size(ctx.drawable_area.center(), size);
        let lo: i64 = ctx.drawable_area.left() - cbox.left();
        let hi: i64 = ctx.drawable_area.right() - cbox.right();
        let clamped: i64 = if x < lo {
            lo
        } else if x > hi {
            hi
        } else {
            x
        };
        proof {
            assert(lo <= hi);
        }
        self.pos = Vec2 { x: clamped, y: self.pos.y };
    }
}

} // verus!
