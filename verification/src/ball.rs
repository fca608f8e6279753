//! The bounce-response integrator: the ball's per-tick state machine.
//!
//! A tick advances the position by `direction * speed * dt`, resolves the
//! boundary first, then every live block, then the paddle, in that fixed
//! order.  The direction is always either zero (before launch) or a
//! fixed-point unit vector; crossing the bottom boundary is terminal.

use vstd::prelude::*;
use crate::blocks::{Block, Blocks};
use crate::collision::{
    boundary_hit, collide_with_boundary, collide_with_rect, rect_hit, BounceDirection,
};
use crate::context::{scale_step, Context};
use crate::entity::Entity;
use crate::fixed::{div_trunc, saturate, POS_LIMIT, SCALE};
use crate::geometry::{Rect, Vec2};
use crate::normalize::{iabs, is_unit, normalized_spec};
use crate::player::Player;

verus! {

/// Ball size as a share of the area width: one part in 20.
pub const BALL_SIZE_DEN: i64 = 20;

/// The moving body: a position relative to the area center, a direction
/// that is zero before launch and unit length after, and the terminal and
/// launch flags.
pub struct Ball {
    pub pos: Vec2,
    pub dir: Vec2,
    pub dead: bool,
    pub started: bool,
}

/// The direction invariant: zero before launch, unit length after launch
/// and after every bounce.
pub open spec fn dir_ok(d: Vec2) -> bool {
    ||| d == Vec2::spec_zero()
    ||| is_unit(d)
}

/// The ball's edge length under the given tick inputs.
pub open spec fn ball_size(ctx: &Context) -> int {
    div_trunc(ctx.drawable_area.spec_width(), BALL_SIZE_DEN as int)
}

/// Where the ball sits before launch: tracking the paddle horizontally at
/// a fixed vertical offset above it.
pub open spec fn follow_pos(player: &Player, ctx: &Context) -> Vec2 {
    Vec2 {
        x: player.pos.x,
        y: (div_trunc(ctx.drawable_area.spec_bottom() as int, 2) - 2 * ball_size(ctx)) as i64,
    }
}

/// A component's reflection.
pub open spec fn flip(a: i64) -> i64 {
    (-(a as int)) as i64
}

/// The ball after the position advance: each component moves by
/// `dir * width * dt`, saturating at the world-coordinate limit.
pub open spec fn moved_ball(b: Ball, ctx: &Context) -> Ball {
    Ball {
        pos: Vec2 {
            x: saturate(b.pos.x + div_trunc(b.dir.x * scale_step(ctx), SCALE as int)) as i64,
            y: saturate(b.pos.y + div_trunc(b.dir.y * scale_step(ctx), SCALE as int)) as i64,
        },
        ..b
    }
}

/// The ball's bounding box recentered on the area center; its edge offsets
/// give the exact position corrections after a boundary bounce.
pub open spec fn centered_ball_box(ctx: &Context) -> Rect {
    Rect::spec_from_center_size(
        ctx.drawable_area.spec_center(),
        Vec2 { x: ball_size(ctx) as i64, y: ball_size(ctx) as i64 },
    )
}

/// The ball after boundary resolution: a struck left, right or top edge
/// reflects the matching direction component and clamps the position so the
/// corrected edge sits exactly on the boundary edge; exiting past the
/// bottom edge is terminal and leaves position and direction untouched.
pub open spec fn boundary_bounced(b: Ball, ctx: &Context) -> Ball {
    let shape = b.spec_bounding_box(ctx);
    let area = ctx.drawable_area;
    let cs = centered_ball_box(ctx);
    match boundary_hit(shape, area) {
        None => b,
        Some(BounceDirection::Right) => Ball {
            pos: Vec2 { x: (area.spec_left() - cs.spec_left()) as i64, y: b.pos.y },
            dir: Vec2 { x: flip(b.dir.x), y: b.dir.y },
            ..b
        },
        Some(BounceDirection::Left) => Ball {
            pos: Vec2 { x: (area.spec_right() - cs.spec_right()) as i64, y: b.pos.y },
            dir: Vec2 { x: flip(b.dir.x), y: b.dir.y },
            ..b
        },
        Some(BounceDirection::Down) => Ball {
            pos: Vec2 { x: b.pos.x, y: (area.spec_top() - cs.spec_top()) as i64 },
            dir: Vec2 { x: b.dir.x, y: flip(b.dir.y) },
            ..b
        },
        Some(BounceDirection::Up) => Ball { dead: true, ..b },
    }
}

/// A block's bounding box.
pub open spec fn block_box(blk: Block) -> Rect {
    Rect::spec_from_center_size(blk.pos, blk.size)
}

/// What the rectangle resolver reports for one block this tick: dead blocks
/// are excluded from every collision test.
pub open spec fn block_hit(b: Ball, ctx: &Context, blk: Block) -> Option<BounceDirection> {
    if blk.alive {
        rect_hit(b.dir, b.spec_bounding_box(ctx), block_box(blk))
    } else {
        None
    }
}

/// The block field after one tick: every struck block dies, every other
/// block is untouched, and no dead block ever revives.
pub open spec fn blocks_after(b: Ball, ctx: &Context, s: Seq<Block>) -> Seq<Block> {
    s.map(
        |i: int, blk: Block|
            Block { alive: blk.alive && block_hit(b, ctx, blk) is None, ..blk },
    )
}

/// Whether any block struck this tick reports a vertical bounce side.
pub open spec fn any_vertical_hit(b: Ball, ctx: &Context, s: Seq<Block>) -> bool {
    exists|i: int|
        0 <= i < s.len() && ((#[trigger] block_hit(b, ctx, s[i])) matches Some(d) && d.is_vertical())
}

/// Whether any block struck this tick reports a horizontal bounce side.
pub open spec fn any_horizontal_hit(b: Ball, ctx: &Context, s: Seq<Block>) -> bool {
    exists|i: int|
        0 <= i < s.len() && ((#[trigger] block_hit(b, ctx, s[i])) matches Some(d)
            && d.is_horizontal())
}

/// The direction after the block pass: the struck sides are de-duplicated,
/// so each axis reflects exactly once however many blocks were struck on it.
pub open spec fn dir_after_blocks(b: Ball, ctx: &Context, s: Seq<Block>) -> Vec2 {
    Vec2 {
        x: if any_horizontal_hit(b, ctx, s) {
            flip(b.dir.x)
        } else {
            b.dir.x
        },
        y: if any_vertical_hit(b, ctx, s) {
            flip(b.dir.y)
        } else {
            b.dir.y
        },
    }
}

/// The ball after the block pass.
pub open spec fn block_bounced(b: Ball, ctx: &Context, s: Seq<Block>) -> Ball {
    Ball { dir: dir_after_blocks(b, ctx, s), ..b }
}

/// The ball after the paddle check: on overlap, the new direction blends
/// the normalized paddle-center-to-ball-center vector (vertical component
/// and steering) with the existing horizontal direction, renormalized, so
/// the outgoing direction is unit length and depends on where on the
/// paddle the ball struck.
pub open spec fn paddle_bounced(b: Ball, ctx: &Context, player: &Player) -> Ball {
    let br = b.spec_bounding_box(ctx);
    let pr = player.spec_bounding_box(ctx);
    if br.spec_intersects(pr) {
        let between = normalized_spec(
            Vec2 {
                x: (br.spec_center().x - pr.spec_center().x) as i64,
                y: (br.spec_center().y - pr.spec_center().y) as i64,
            },
        );
        let blended = Vec2 { x: (b.dir.x + between.x) as i64, y: between.y };
        Ball { dir: normalized_spec(blended), ..b }
    } else {
        b
    }
}

/// One full tick of the ball: nothing once dead, paddle-tracking before
/// launch, otherwise move, then boundary, then blocks, then paddle, in
/// that fixed order.
pub open spec fn tick_ball(b: Ball, ctx: &Context, s: Seq<Block>, player: &Player) -> Ball {
    if b.dead {
        b
    } else if !b.started {
        Ball { pos: follow_pos(player, ctx), ..b }
    } else {
        paddle_bounced(
            block_bounced(boundary_bounced(moved_ball(b, ctx), ctx), ctx, s),
            ctx,
            player,
        )
    }
}

/// The block field after one full tick of the ball.
pub open spec fn tick_blocks(b: Ball, ctx: &Context, s: Seq<Block>) -> Seq<Block> {
    if b.dead || !b.started {
        s
    } else {
        blocks_after(boundary_bounced(moved_ball(b, ctx), ctx), ctx, s)
    }
}

/// The direction the ball launches with: slightly off vertical, steered
/// further by whichever keys are held, then normalized.
pub open spec fn launch_dir(ctx: &Context) -> Vec2 {
    let steer = 3 * (SCALE as int) / 2;
    let x = (SCALE as int) / 100 + (if ctx.right_down {
        steer
    } else {
        0
    }) - (if ctx.left_down {
        steer
    } else {
        0
    });
    Vec2 { x: x as i64, y: (-(SCALE as int)) as i64 }
}

/// Reflecting one component preserves the direction invariant.
pub proof fn lemma_flip_dir_ok(d: Vec2, horizontal: bool)
    requires
        dir_ok(d),
        -2 * SCALE <= d.x <= 2 * SCALE,
        -2 * SCALE <= d.y <= 2 * SCALE,
    ensures
        horizontal ==> dir_ok(Vec2 { x: flip(d.x), y: d.y }),
        !horizontal ==> dir_ok(Vec2 { x: d.x, y: flip(d.y) }),
{
    assert((-(d.x as int)) * (-(d.x as int)) == d.x * d.x && (-(d.y as int)) * (-(d.y as int))
        == d.y * d.y) by (nonlinear_arith);
}

/// Across any full tick the block field only ever loses aliveness: no dead
/// block revives, no block moves or changes size, and the field keeps its
/// length.  Only an explicit reset revives blocks.
pub proof fn lemma_tick_blocks_monotone(b: Ball, ctx: &Context, s: Seq<Block>)
    ensures
        tick_blocks(b, ctx, s).len() == s.len(),
        forall|i: int|
            0 <= i < s.len() ==> {
                &&& (#[trigger] tick_blocks(b, ctx, s)[i]).pos == s[i].pos
                &&& tick_blocks(b, ctx, s)[i].size == s[i].size
                &&& (tick_blocks(b, ctx, s)[i].alive ==> s[i].alive)
            },
{
}

/// A bounce off the boundary or off blocks only ever reflects components,
/// so it keeps a unit direction exactly unit: the squared magnitude is
/// unchanged.
pub proof fn lemma_bounce_keeps_unit(b: Ball, ctx: &Context, s: Seq<Block>)
    requires
        is_unit(b.dir),
        -2 * SCALE <= b.dir.x <= 2 * SCALE,
        -2 * SCALE <= b.dir.y <= 2 * SCALE,
    ensures
        is_unit(boundary_bounced(b, ctx).dir) || boundary_bounced(b, ctx).dir == b.dir,
        boundary_bounced(b, ctx).dir.norm_sq() == b.dir.norm_sq(),
        block_bounced(b, ctx, s).dir.norm_sq() == b.dir.norm_sq(),
        is_unit(block_bounced(b, ctx, s).dir),
{
    assert((-(b.dir.x as int)) * (-(b.dir.x as int)) == b.dir.x * b.dir.x && (-(b.dir.y as int))
        * (-(b.dir.y as int)) == b.dir.y * b.dir.y) by (nonlinear_arith);
}

/// The paddle response keeps the direction invariant: the renormalized
/// outgoing direction is unit length, except in the degenerate case where
/// the blend cancels to the zero vector, which the invariant also admits.
pub proof fn lemma_paddle_bounce_dir_ok(b: Ball, ctx: &Context, player: &Player)
    requires
        dir_ok(b.dir),
    ensures
        dir_ok(paddle_bounced(b, ctx, player).dir),
{
    let br = b.spec_bounding_box(ctx);
    let pr = player.spec_bounding_box(ctx);
    if br.spec_intersects(pr) {
        let between = normalized_spec(
            Vec2 {
                x: (br.spec_center().x - pr.spec_center().x) as i64,
                y: (br.spec_center().y - pr.spec_center().y) as i64,
            },
        );
        let blended = Vec2 { x: (b.dir.x + between.x) as i64, y: between.y };
        if blended != Vec2::spec_zero() {
            crate::normalize::lemma_normalized_unit(blended);
        }
    }
}

impl Default for Ball {
    /// The initial state: resting, unlaunched, at the origin.
    fn default() -> (b: Ball)
        ensures
            b == (Ball {
                pos: Vec2::spec_zero(),
                dir: Vec2::spec_zero(),
                dead: false,
                started: false,
            }),
            b.inv(),
    {
        Ball { pos: Vec2::zero(), dir: Vec2::zero(), dead: false, started: false }
    }
}

impl Entity for Ball {
    open spec fn inv(&self) -> bool {
        &&& -POS_LIMIT <= self.pos.x <= POS_LIMIT
        &&& -POS_LIMIT <= self.pos.y <= POS_LIMIT
        &&& -2 * SCALE <= self.dir.x <= 2 * SCALE
        &&& -2 * SCALE <= self.dir.y <= 2 * SCALE
        &&& dir_ok(self.dir)
    }

    open spec fn spec_bounding_box(&self, ctx: &Context) -> Rect {
        Rect::spec_from_center_size(
            Vec2 {
                x: (ctx.drawable_area.spec_center().x + self.pos.x) as i64,
                y: (ctx.drawable_area.spec_center().y + self.pos.y) as i64,
            },
            Vec2 { x: ball_size(ctx) as i64, y: ball_size(ctx) as i64 },
        )
    }

    open spec fn resets_to(&self, post: &Self) -> bool {
        *post == (Ball {
            pos: Vec2::spec_zero(),
            dir: Vec2::spec_zero(),
            dead: false,
            started: false,
        })
    }

    fn get_bounding_box(&self, ctx: &Context) -> (r: Rect) {
        let w: i64 = ctx.drawable_area.width();
        let sz: i64 = crate::fixed::div_by(w, BALL_SIZE_DEN);
        proof {
            lemma_ball_size_bounds(ctx);
        }
        let c = ctx.drawable_area.center();
        Rect::from_center_size(
            Vec2 { x: c.x + self.pos.x, y: c.y + self.pos.y },
            Vec2 { x: sz, y: sz },
        )
    }

    fn reset(&mut self) {
        self.pos = Vec2::zero();
        self.dir = Vec2::zero();
        self.dead = false;
        self.started = false;
    }
}

/// The ball size is nonnegative and no larger than the area width.
pub proof fn lemma_ball_size_bounds(ctx: &Context)
    requires
        ctx.wf(),
    ensures
        0 <= ball_size(ctx) <= ctx.drawable_area.spec_width(),
{
    let w = ctx.drawable_area.spec_width();
    vstd::arithmetic::div_mod::lemma_div_pos_is_pos(w, BALL_SIZE_DEN as int);
    vstd::arithmetic::div_mod::lemma_div_is_ordered_by_denominator(w, 1, BALL_SIZE_DEN as int);
    vstd::arithmetic::div_mod::lemma_div_basics(w);
}

/// A well-formed ball under well-formed tick inputs presents a well-formed
/// bounding box.
pub proof fn lemma_ball_box_wf(b: &Ball, ctx: &Context)
    requires
        b.inv(),
        ctx.wf(),
    ensures
        b.spec_bounding_box(ctx).wf(),
{
    lemma_ball_size_bounds(ctx);
}

/// A well-formed block presents a well-formed bounding box.
pub proof fn lemma_block_box_wf(blk: Block)
    requires
        blk.inv(),
    ensures
        block_box(blk).wf(),
{
}

impl Ball {
    /// The launch transition: set a unit direction biased by the steering
    /// keys held at launch.  A ball already in flight is left alone.
    pub fn launch(&mut self, ctx: &Context)
        requires
            old(self).inv(),
        ensures
            final(self).inv(),
            old(self).started ==> *final(self) == *old(self),
            !old(self).started ==> *final(self) == (Ball {
                started: true,
                dir: normalized_spec(launch_dir(ctx)),
                ..*old(self)
            }),
    {
        if self.started {
            return ;
        }
        let mut x: i64 = crate::fixed::div_by(SCALE, 100);
        let steer: i64 = crate::fixed::div_by(3 * SCALE, 2);
        if ctx.right_down {
            x = x + steer;
        }
        if ctx.left_down {
            x = x - steer;
        }
        let raw = Vec2 { x, y: -SCALE };
        let d = raw.normalized();
        proof {
            assert(raw == launch_dir(ctx));
            crate::normalize::lemma_normalized_unit(raw);
        }
        self.dir = d;
        self.started = true;
    }

    /// One full simulation tick, in the fixed order: advance the position,
    /// resolve the boundary, resolve every live block, then the paddle.
    /// A dead ball no longer moves; an unlaunched ball tracks the paddle.
    pub fn update(&mut self, ctx: &Context, blocks: &mut Blocks, player: &Player)
        requires
            old(self).inv(),
            ctx.wf(),
            old(blocks).inv(),
            player.inv(),
        ensures
            final(self).inv(),
            final(blocks).inv(),
            *final(self) == tick_ball(*old(self), ctx, old(blocks).blocks@, player),
            final(blocks).blocks@ == tick_blocks(*old(self), ctx, old(blocks).blocks@),
    {
        if self.dead {
            return ;
        }
        let w: i64 = ctx.drawable_area.width();
        if !self.started {
            let sz: i64 = crate::fixed::div_by(w, BALL_SIZE_DEN);
            proof {
                lemma_ball_size_bounds(ctx);
            }
            let y: i64 = crate::fixed::div_by(ctx.drawable_area.bottom(), 2) - 2 * sz;
            self.pos = Vec2 { x: player.pos.x, y };
            return ;
        }
        proof {
            assert(0 <= w * ctx.dt <= 0x2000_0000_0000_0000) by (nonlinear_arith)
                requires
                    0 <= w <= 0x8000_0000,
                    0 <= ctx.dt <= crate::context::DT_LIMIT,
                    crate::context::DT_LIMIT == 0x4000_0000,
            ;
        }
        let step: i64 = crate::fixed::div_by(w * ctx.dt, SCALE);
        proof {
            vstd::arithmetic::div_mod::lemma_div_pos_is_pos(w * ctx.dt, SCALE as int);
            vstd::arithmetic::div_mod::lemma_div_is_ordered_by_denominator(
                w * ctx.dt,
                1,
                SCALE as int,
            );
            vstd::arithmetic::div_mod::lemma_div_basics(w * ctx.dt);
            vstd::arithmetic::div_mod::lemma_div_is_ordered(
                w * ctx.dt,
                0x2000_0000_0000_0000,
                SCALE as int,
            );
            assert(step <= 0x2000_0000_0000);
            assert(-0x4000_0000_0000_0000 <= self.dir.x * step <= 0x4000_0000_0000_0000
                && -0x4000_0000_0000_0000 <= self.dir.y * step <= 0x4000_0000_0000_0000)
                by (nonlinear_arith)
                requires
                    -2 * SCALE <= self.dir.x <= 2 * SCALE,
                    -2 * SCALE <= self.dir.y <= 2 * SCALE,
                    0 <= step <= 0x2000_0000_0000,
                    SCALE == 65536,
            ;
        }
        let dx: i64 = crate::fixed::div_by(self.dir.x * step, SCALE);
        let dy: i64 = crate::fixed::div_by(self.dir.y * step, SCALE);
        proof {
            lemma_div_trunc_small(self.dir.x * step, SCALE as int);
            lemma_div_trunc_small(self.dir.y * step, SCALE as int);
        }
        self.pos = Vec2 {
            x: crate::fixed::clamp_pos(self.pos.x + dx),
            y: crate::fixed::clamp_pos(self.pos.y + dy),
        };
        self.boundary_bounce(ctx);
        self.block_bounce(ctx, blocks);
        self.player_bounce(ctx, player);
    }

    /// Resolve the world boundary: reflect and clamp on a struck left,
    /// right or top edge; mark the ball dead on a bottom exit.
    pub fn boundary_bounce(&mut self, ctx: &Context)
        requires
            old(self).inv(),
            ctx.wf(),
        ensures
            final(self).inv(),
            *final(self) == boundary_bounced(*old(self), ctx),
    {
        let shape = self.get_bounding_box(ctx);
        let area = ctx.drawable_area;
        let w: i64 = ctx.drawable_area.width();
        let sz: i64 = crate::fixed::div_by(w, BALL_SIZE_DEN);
        proof {
            lemma_ball_size_bounds(ctx);
        }
        let cs = Rect::from_center_size(ctx.drawable_area.center(), Vec2 { x: sz, y: sz });
        match collide_with_boundary(&shape, &area) {
            Some(BounceDirection::Right) => {
                self.pos = Vec2 { x: area.left() - cs.left(), y: self.pos.y };
                self.dir = Vec2 { x: -self.dir.x, y: self.dir.y };
                proof {
                    lemma_flip_dir_ok(old(self).dir, true);
                }
            },
            Some(BounceDirection::Left) => {
                self.pos = Vec2 { x: area.right() - cs.right(), y: self.pos.y };
                self.dir = Vec2 { x: -self.dir.x, y: self.dir.y };
                proof {
                    lemma_flip_dir_ok(old(self).dir, true);
                }
            },
            Some(BounceDirection::Down) => {
                self.pos = Vec2 { x: self.pos.x, y: area.top() - cs.top() };
                self.dir = Vec2 { x: self.dir.x, y: -self.dir.y };
                proof {
                    lemma_flip_dir_ok(old(self).dir, false);
                }
            },
            Some(BounceDirection::Up) => {
                self.dead = true;
            },
            None => {},
        }
    }

    /// Resolve every live block: a struck block dies exactly once, and the
    /// set of struck sides is de-duplicated so each axis reflects at most
    /// once per tick.
    pub fn block_bounce(&mut self, ctx: &Context, blocks: &mut Blocks)
        requires
            old(self).inv(),
            ctx.wf(),
            old(blocks).inv(),
        ensures
            final(self).inv(),
            final(blocks).inv(),
            *final(self) == block_bounced(*old(self), ctx, old(blocks).blocks@),
            final(blocks).blocks@ == blocks_after(*old(self), ctx, old(blocks).blocks@),
    {
        let bb = self.get_bounding_box(ctx);
        proof {
            lemma_ball_box_wf(self, ctx);
        }
        let ghost s0: Seq<Block> = blocks.blocks@;
        let mut flip_horizontal: bool = false;
        let mut flip_vertical: bool = false;
        let n: usize = blocks.blocks.len();
        let mut i: usize = 0;
        while i < n
            invariant
                i <= n,
                n == blocks.blocks@.len(),
                ctx.wf(),
                self.inv(),
                *self == *old(self),
                s0 == old(blocks).blocks@,
                s0.len() == n,
                forall|j: int| 0 <= j < n ==> #[trigger] s0[j].inv(),
                bb == self.spec_bounding_box(ctx),
                blocks.blocks@.len() == n,
                forall|j: int|
                    0 <= j < i ==> #[trigger] blocks.blocks@[j] == (Block {
                        alive: s0[j].alive && block_hit(*self, ctx, s0[j]) is None,
                        ..s0[j]
                    }),
                forall|j: int| i <= j < n ==> #[trigger] blocks.blocks@[j] == s0[j],
                flip_vertical == any_vertical_hit(*self, ctx, s0.subrange(0, i as int)),
                flip_horizontal == any_horizontal_hit(*self, ctx, s0.subrange(0, i as int)),
            decreases n - i,
        {
            let ghost prefix = s0.subrange(0, i as int);
            let ghost prefix1 = s0.subrange(0, i as int + 1);
            let alive_now: bool = blocks.blocks[i].alive;
            if alive_now {
                let blk_pos: Vec2 = blocks.blocks[i].pos;
                let blk_size: Vec2 = blocks.blocks[i].size;
                proof {
                    assert(s0[i as int].inv());
                    lemma_block_box_wf(s0[i as int]);
                }
                let blk_bb = Rect::from_center_size(blk_pos, blk_size);
                let hit = collide_with_rect(&self.dir, &bb, &blk_bb);
                match hit {
                    Some(d) => {
                        blocks.blocks[i].alive = false;
                        match d {
                            BounceDirection::Up | BounceDirection::Down => {
                                flip_vertical = true;
                            },
                            BounceDirection::Left | BounceDirection::Right => {
                                flip_horizontal = true;
                            },
                        }
                    },
                    None => {},
                }
            }
            proof {
                assert(prefix1.drop_last() == prefix);
                assert(prefix1.last() == s0[i as int]);
                lemma_hit_prefix_extend(*self, ctx, s0, i as int, flip_vertical, flip_horizontal);
            }
            i = i + 1;
        }
        proof {
            assert(s0.subrange(0, n as int) == s0);
        }
        if flip_vertical {
            self.dir = Vec2 { x: self.dir.x, y: -self.dir.y };
        }
        if flip_horizontal {
            self.dir = Vec2 { x: -self.dir.x, y: self.dir.y };
        }
        proof {
            lemma_flip_dir_ok(old(self).dir, false);
            if flip_vertical {
                lemma_flip_dir_ok(Vec2 { x: old(self).dir.x, y: flip(old(self).dir.y) }, true);
            } else {
                lemma_flip_dir_ok(old(self).dir, true);
            }
            assert(final_blocks_match(*old(self), ctx, s0, blocks.blocks@));
            assert forall|j: int| 0 <= j < blocks.blocks@.len() implies #[trigger] blocks.blocks@[j].inv() by {
                assert(s0[j].inv());
            }
        }
    }

    /// Resolve the paddle: on overlap, steer the outgoing direction by the
    /// offset of the ball's center from the paddle's center, renormalized
    /// to unit length.
    pub fn player_bounce(&mut self, ctx: &Context, player: &Player)
        requires
            old(self).inv(),
            ctx.wf(),
            player.inv(),
        ensures
            final(self).inv(),
            *final(self) == paddle_bounced(*old(self), ctx, player),
    {
        let self_rect = self.get_bounding_box(ctx);
        let player_rect = player.get_bounding_box(ctx);
        proof {
            lemma_ball_box_wf(self, ctx);
            lemma_player_box_wf(player, ctx);
        }
        if self_rect.intersects(&player_rect) {
            let sc = self_rect.center();
            let pc = player_rect.center();
            let diff = Vec2 { x: sc.x - pc.x, y: sc.y - pc.y };
            let between = diff.normalized();
            proof {
                if diff != Vec2::spec_zero() {
                    crate::normalize::lemma_normalized_unit(diff);
                }
            }
            let blended = Vec2 { x: self.dir.x + between.x, y: between.y };
            let d = blended.normalized();
            proof {
                if blended != Vec2::spec_zero() {
                    crate::normalize::lemma_normalized_unit(blended);
                }
            }
            self.dir = d;
        }
    }
}

/// The final block field matches the per-block specification.
pub open spec fn final_blocks_match(b: Ball, ctx: &Context, s0: Seq<Block>, s1: Seq<Block>) -> bool {
    &&& s1.len() == s0.len()
    &&& forall|j: int|
        0 <= j < s0.len() ==> #[trigger] s1[j] == (Block {
            alive: s0[j].alive && block_hit(b, ctx, s0[j]) is None,
            ..s0[j]
        })
}

/// Extending the scanned prefix by one block extends the struck-side
/// summary by exactly that block's report.
pub proof fn lemma_hit_prefix_extend(
    b: Ball,
    ctx: &Context,
    s: Seq<Block>,
    i: int,
    vert: bool,
    horiz: bool,
)
    requires
        0 <= i < s.len(),
        vert == (any_vertical_hit(b, ctx, s.subrange(0, i)) || (block_hit(b, ctx, s[i]) matches Some(
            d,
        ) && d.is_vertical())),
        horiz == (any_horizontal_hit(b, ctx, s.subrange(0, i)) || (block_hit(
            b,
            ctx,
            s[i],
        ) matches Some(d) && d.is_horizontal())),
    ensures
        vert == any_vertical_hit(b, ctx, s.subrange(0, i + 1)),
        horiz == any_horizontal_hit(b, ctx, s.subrange(0, i + 1)),
{
    let p = s.subrange(0, i);
    let p1 = s.subrange(0, i + 1);
    assert forall|j: int| 0 <= j < p1.len() implies p1[j] == s[j] by {}
    if any_vertical_hit(b, ctx, p) {
        let j = choose|j: int|
            0 <= j < p.len() && ((#[trigger] block_hit(b, ctx, p[j])) matches Some(d)
                && d.is_vertical());
        assert(p1[j] == p[j]);
        assert(any_vertical_hit(b, ctx, p1));
    }
    if block_hit(b, ctx, s[i]) matches Some(d) && d.is_vertical() {
        assert(p1[i] == s[i]);
        assert(any_vertical_hit(b, ctx, p1));
    }
    if any_vertical_hit(b, ctx, p1) {
        let j = choose|j: int|
            0 <= j < p1.len() && ((#[trigger] block_hit(b, ctx, p1[j])) matches Some(d)
                && d.is_vertical());
        if j < i {
            assert(p[j] == p1[j]);
            assert(any_vertical_hit(b, ctx, p));
        }
    }
    if any_horizontal_hit(b, ctx, p) {
        let j = choose|j: int|
            0 <= j < p.len() && ((#[trigger] block_hit(b, ctx, p[j])) matches Some(d)
                && d.is_horizontal());
        assert(p1[j] == p[j]);
        assert(any_horizontal_hit(b, ctx, p1));
    }
    if block_hit(b, ctx, s[i]) matches Some(d) && d.is_horizontal() {
        assert(p1[i] == s[i]);
        assert(any_horizontal_hit(b, ctx, p1));
    }
    if any_horizontal_hit(b, ctx, p1) {
        let j = choose|j: int|
            0 <= j < p1.len() && ((#[trigger] block_hit(b, ctx, p1[j])) matches Some(d)
                && d.is_horizontal());
        if j < i {
            assert(p[j] == p1[j]);
            assert(any_horizontal_hit(b, ctx, p));
        }
    }
}

/// Idempotent dead obstacles: a block whose `alive` flag is false never
/// reports a bounce side and is left exactly as it was — in particular it
/// is never flipped back to alive — by any number of block passes.
pub proof fn lemma_dead_block_stays_dead(b: Ball, ctx: &Context, s: Seq<Block>, i: int)
    requires
        0 <= i < s.len(),
        !s[i].alive,
    ensures
        block_hit(b, ctx, s[i]) is None,
        blocks_after(b, ctx, s)[i] == s[i],
{
}

/// A bottom exit is terminal, not a bounce: it sets `dead` and leaves the
/// position and the direction exactly as they were.
pub proof fn lemma_bottom_exit_terminal(b: Ball, ctx: &Context)
    requires
        boundary_hit(b.spec_bounding_box(ctx), ctx.drawable_area) == Some(BounceDirection::Up),
    ensures
        boundary_bounced(b, ctx) == (Ball { dead: true, ..b }),
{
}

/// A boundary bounce corrects the position exactly: the struck edge of the
/// bounced ball's box sits precisely on the matching boundary edge, so the
/// ball can neither creep past an edge nor stick to it.
pub proof fn lemma_bounce_corrects_edge(b: Ball, ctx: &Context)
    requires
        b.inv(),
        ctx.wf(),
    ensures
        boundary_hit(b.spec_bounding_box(ctx), ctx.drawable_area) == Some(BounceDirection::Right)
            ==> boundary_bounced(b, ctx).spec_bounding_box(ctx).spec_left()
            == ctx.drawable_area.spec_left(),
        boundary_hit(b.spec_bounding_box(ctx), ctx.drawable_area) == Some(BounceDirection::Left)
            ==> boundary_bounced(b, ctx).spec_bounding_box(ctx).spec_right()
            == ctx.drawable_area.spec_right(),
        boundary_hit(b.spec_bounding_box(ctx), ctx.drawable_area) == Some(BounceDirection::Down)
            ==> boundary_bounced(b, ctx).spec_bounding_box(ctx).spec_top()
            == ctx.drawable_area.spec_top(),
{
    lemma_ball_size_bounds(ctx);
}

/// A well-formed paddle under well-formed tick inputs presents a
/// well-formed bounding box.
pub proof fn lemma_player_box_wf(p: &Player, ctx: &Context)
    requires
        p.inv(),
        ctx.wf(),
    ensures
        p.spec_bounding_box(ctx).wf(),
{
    crate::player::lemma_paddle_height_bounds(ctx);
}

/// Truncating division by a positive divisor never grows the magnitude.
proof fn lemma_div_trunc_small(a: int, d: int)
    requires
        d >= 1,
    ensures
        iabs(div_trunc(a, d)) <= iabs(a),
{
    if a >= 0 {
        vstd::arithmetic::div_mod::lemma_div_pos_is_pos(a, d);
        vstd::arithmetic::div_mod::lemma_div_is_ordered_by_denominator(a, 1, d);
        vstd::arithmetic::div_mod::lemma_div_basics(a);
    } else {
        vstd::arithmetic::div_mod::lemma_div_pos_is_pos(-a, d);
        vstd::arithmetic::div_mod::lemma_div_is_ordered_by_denominator(-a, 1, d);
        vstd::arithmetic::div_mod::lemma_div_basics(-a);
    }
}

} // verus!
