//! The destructible obstacle field.  Positions, sizes and colors are laid
//! out by the environment; the engine only reads each block's rectangle and
//! toggles its `alive` flag.

use vstd::prelude::*;
use crate::context::Context;
use crate::entity::Entity;
use crate::geometry::{Rect, Vec2};

verus! {

/// Bound on obstacle coordinates and sizes.
pub const BLOCK_LIMIT: i64 = 0x8000_0000;

/// One destructible obstacle: a rectangle given by center and size, plus
/// its aliveness.  Once struck, `alive` turns false and the block is
/// excluded from every future collision test until a reset revives it.
pub struct Block {
    pub pos: Vec2,
    pub size: Vec2,
    pub alive: bool,
}

/// The obstacle field.
pub struct Blocks {
    pub blocks: Vec<Block>,
}

impl Default for Blocks {
    /// The initial field: no blocks laid out yet; the environment's layout
    /// routine fills the field in.
    fn default() -> (b: Blocks)
        ensures
            b.blocks@.len() == 0,
            b.inv(),
    {
        Blocks { blocks: Vec::new() }
    }
}

impl Entity for Block {
    open spec fn inv(&self) -> bool {
        &&& -BLOCK_LIMIT <= self.pos.x <= BLOCK_LIMIT
        &&& -BLOCK_LIMIT <= self.pos.y <= BLOCK_LIMIT
        &&& 0 <= self.size.x <= BLOCK_LIMIT
        &&& 0 <= self.size.y <= BLOCK_LIMIT
    }

    open spec fn spec_bounding_box(&self, ctx: &Context) -> Rect {
        Rect::spec_from_center_size(self.pos, self.size)
    }

    open spec fn resets_to(&self, post: &Self) -> bool {
        *post == (Block { alive: true, ..*self })
    }

    fn get_bounding_box(&self, ctx: &Context) -> (r: Rect) {
        Rect::from_center_size(self.pos, self.size)
    }

    fn reset(&mut self) {
        self.alive = true;
    }
}

impl Entity for Blocks {
    open spec fn inv(&self) -> bool {
        forall|i: int| 0 <= i < self.blocks@.len() ==> #[trigger] self.blocks@[i].inv()
    }

    open spec fn spec_bounding_box(&self, ctx: &Context) -> Rect {
        Rect { min: Vec2::spec_zero(), max: Vec2::spec_zero() }
    }

    /// A reset field keeps every block's geometry and revives them all.
    open spec fn resets_to(&self, post: &Self) -> bool {
        &&& post.blocks@.len() == self.blocks@.len()
        &&& forall|i: int|
            0 <= i < self.blocks@.len() ==> #[trigger] post.blocks@[i] == (Block {
                alive: true,
                ..self.blocks@[i]
            })
    }

    fn get_bounding_box(&self, ctx: &Context) -> (r: Rect) {
        Rect { min: Vec2 { x: 0, y: 0 }, max: Vec2 { x: 0, y: 0 } }
    }

    fn reset(&mut self) {
        let n: usize = self.blocks.len();
        let mut i: usize = 0;
        while i < n
            invariant
                i <= n,
                n == self.blocks@.len(),
                old(self).inv(),
                self.blocks@.len() == old(self).blocks@.len(),
                forall|j: int|
                    0 <= j < i ==> #[trigger] self.blocks@[j] == (Block {
                        alive: true,
                        ..old(self).blocks@[j]
                    }),
                forall|j: int| i <= j < n ==> #[trigger] self.blocks@[j] == old(self).blocks@[j],
            decreases n - i,
        {
            self.blocks[i].alive = true;
            i = i + 1;
        }
        proof {
            assert forall|j: int| 0 <= j < self.blocks@.len() implies #[trigger] self.blocks@[j].inv() by {
                assert(old(self).blocks@[j].inv());
            }
        }
    }
}

} // verus!
