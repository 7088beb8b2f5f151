use vstd::prelude::*;
use vstd::arithmetic::div_mod::lemma_fundamental_div_mod_converse;
use crate::assets::Assets;
use crate::collisions::Bounds;
use crate::color::Color;
use crate::frame::registry_of;
use crate::context::RenderContext;
use crate::instances::Instance;
use crate::layer::Layer;
use crate::sprite::Sprite;
use crate::vector::Vector2;

verus! {

/// The width of a block, in pixels.
pub const BLOCK_WIDTH: i32 = 48;

/// The height of a block, in pixels.
pub const BLOCK_HEIGHT: i32 = 24;

/// The number of blocks side by side at the start of a game.
pub const BLOCKS_COLUMNS: i32 = 15;

/// The number of blocks above each other at the start of a game.
pub const BLOCKS_ROWS: i32 = 10;

/// The left edge of the field of blocks, which is centred on a screen 800 pixels wide.
pub const BLOCKS_ORIGIN_X: i32 = 40;

/// The lower edge of the field of blocks.
pub const BLOCKS_ORIGIN_Y: i32 = 320;

/// One block to break.
#[derive(Debug, Copy, Clone, PartialEq, Eq)]
pub struct Block {
    position: Vector2<i32>,
}

impl Block {
    pub closed spec fn position(self) -> Vector2<i32> {
        self.position
    }

    /// The rectangle that the block covers.
    pub open spec fn bounds_spec(self) -> Bounds {
        Bounds { position: self.position(), size: Vector2 { x: BLOCK_WIDTH, y: BLOCK_HEIGHT } }
    }

    /// The draw call for the block.
    pub open spec fn instance(self, sprite: Sprite) -> Instance {
        Instance {
            position: self.position(),
            sprite,
            layer: Layer(0),
            tint: Color::opaque(255, 255, 255),
        }
    }

    pub fn new(position: Vector2<i32>) -> (block: Block)
        ensures
            block.position() == position,
    {
        Block { position }
    }

    pub fn render(&self, ctx: &mut RenderContext, assets: &Assets)
        ensures
            final(ctx).clear_color() == old(ctx).clear_color(),
            final(ctx).textures() == registry_of(final(ctx).instances()),
            final(ctx).instances() == old(ctx).instances().push(self.instance(assets.block())),
    {
        ctx.draw_sprite(assets.get_block(), self.position, Layer(0), Color::white());
    }

    pub fn bounds(&self) -> (bounds: Bounds)
        ensures
            bounds == self.bounds_spec(),
    {
        Bounds { position: self.position, size: Vector2 { x: BLOCK_WIDTH, y: BLOCK_HEIGHT } }
    }
}

/// Where the block at place `k` stands at the start of a game: the blocks stand in
/// columns of ten, column by column from the left and in each column from the bottom.
pub open spec fn starting_position(k: int) -> Vector2<i32> {
    Vector2 {
        x: (BLOCKS_ORIGIN_X + (k / 10) * BLOCK_WIDTH) as i32,
        y: (BLOCKS_ORIGIN_Y + (k % 10) * BLOCK_HEIGHT) as i32,
    }
}

/// Whether `blocks` is the field of blocks at the start of a game: fifteen columns of
/// ten blocks.
pub open spec fn is_starting_field(blocks: Seq<Block>) -> bool {
    &&& blocks.len() == 150
    &&& forall|k: int| 0 <= k < 150 ==> (#[trigger] blocks[k]).position() == starting_position(k)
}

/// The blocks that are left.
#[derive(Debug)]
pub struct Blocks {
    blocks: Vec<Block>,
}

/// The place of the first of the first `n` blocks that meets `ball`, if one does.
pub open spec fn first_hit(blocks: Seq<Block>, ball: Bounds, n: int) -> Option<int>
    decreases n,
{
    if n <= 0 {
        None
    } else {
        match first_hit(blocks, ball, n - 1) {
            Some(i) => Some(i),
            None => if blocks[n - 1].bounds_spec().overlap_spec(ball) is Some {
                Some(n - 1)
            } else {
                None
            },
        }
    }
}

/// A hit is at a place among the blocks looked at, the block there meets the ball, and
/// no block before it does.
pub proof fn lemma_first_hit(blocks: Seq<Block>, ball: Bounds, n: int)
    requires
        0 <= n <= blocks.len(),
    ensures
        match first_hit(blocks, ball, n) {
            Some(i) => 0 <= i < n && blocks[i].bounds_spec().overlap_spec(ball) is Some && forall|
                j: int,
            |
                0 <= j < i ==> (#[trigger] blocks[j]).bounds_spec().overlap_spec(ball) is None,
            None => forall|j: int|
                0 <= j < n ==> (#[trigger] blocks[j]).bounds_spec().overlap_spec(ball) is None,
        },
    decreases n,
{
    if n > 0 {
        lemma_first_hit(blocks, ball, n - 1);
    }
}

/// The draw calls for the blocks, in order.
pub open spec fn block_instances(blocks: Seq<Block>, sprite: Sprite) -> Seq<Instance> {
    blocks.map_values(|block: Block| block.instance(sprite))
}

impl Blocks {
    #[verifier::type_invariant]
    pub closed spec fn inv(self) -> bool {
        self.blocks@.len() <= BLOCKS_COLUMNS * BLOCKS_ROWS
    }

    pub closed spec fn blocks(self) -> Seq<Block> {
        self.blocks@
    }

    /// There are never more blocks than at the start.
    pub proof fn lemma_count(self)
        requires
            self.inv(),
        ensures
            self.blocks().len() <= 150,
    {
    }

    /// The field of blocks at the start of a game.
    pub fn new() -> (field: Blocks)
        ensures
            is_starting_field(field.blocks()),
    {
        let mut blocks: Vec<Block> = Vec::new();
        let mut x: i32 = 0;
        while x < BLOCKS_COLUMNS
            invariant
                0 <= x <= BLOCKS_COLUMNS,
                blocks@.len() == x * 10,
                forall|k: int|
                    0 <= k < blocks@.len() ==> (#[trigger] blocks@[k]).position()
                        == starting_position(k),
            decreases BLOCKS_COLUMNS - x,
        {
            let mut y: i32 = 0;
            while y < BLOCKS_ROWS
                invariant
                    0 <= x < BLOCKS_COLUMNS,
                    0 <= y <= BLOCKS_ROWS,
                    blocks@.len() == x * 10 + y,
                    forall|k: int|
                        0 <= k < blocks@.len() ==> (#[trigger] blocks@[k]).position()
                            == starting_position(k),
                decreases BLOCKS_ROWS - y,
            {
                proof {
                    lemma_fundamental_div_mod_converse(x * 10 + y, 10, x as int, y as int);
                }
                let origin = Vector2 { x: BLOCKS_ORIGIN_X, y: BLOCKS_ORIGIN_Y };
                let offset = Vector2 { x: x * BLOCK_WIDTH, y: y * BLOCK_HEIGHT };
                blocks.push(Block::new(origin.plus(offset)));
                y = y + 1;
            }
            x = x + 1;
        }
        Blocks { blocks }
    }

    pub fn get_blocks(&self) -> (blocks: &Vec<Block>)
        ensures
            blocks@ == self.blocks(),
    {
        &self.blocks
    }

    /// Draws the blocks that are left.
    pub fn render(&self, ctx: &mut RenderContext, assets: &Assets)
        ensures
            final(ctx).clear_color() == old(ctx).clear_color(),
            final(ctx).textures() == registry_of(final(ctx).instances()),
            final(ctx).instances() == old(ctx).instances() + block_instances(
                self.blocks(),
                assets.block(),
            ),
    {
        proof {
            use_type_invariant(&*ctx);
            ctx.lemma_textures();
        }
        let ghost drawn = ctx.instances();
        let ghost all = block_instances(self.blocks@, assets.block());
        let mut i: usize = 0;
        while i < self.blocks.len()
            invariant
                i <= self.blocks@.len(),
                all == block_instances(self.blocks@, assets.block()),
                ctx.clear_color() == old(ctx).clear_color(),
                ctx.textures() == registry_of(ctx.instances()),
                ctx.instances() == drawn + all.take(i as int),
            decreases self.blocks@.len() - i,
        {
            self.blocks[i].render(ctx, assets);
            i = i + 1;
        }
    }

    /// Breaks the first block that meets the ball, if one does, and says what the two
    /// share.
    pub fn handle_collisions(&mut self, ball: Bounds) -> (shared: Option<Bounds>)
        ensures
            match first_hit(old(self).blocks(), ball, old(self).blocks().len() as int) {
                Some(i) => shared == old(self).blocks()[i].bounds_spec().overlap_spec(ball)
                    && final(self).blocks() == old(self).blocks().remove(i),
                None => shared.is_none() && final(self).blocks() == old(self).blocks(),
            },
    {
        proof {
            use_type_invariant(&*self);
        }
        let mut i: usize = 0;
        while i < self.blocks.len()
            invariant
                i <= self.blocks@.len(),
                self.blocks@.len() <= BLOCKS_COLUMNS * BLOCKS_ROWS,
                self.blocks@ == old(self).blocks@,
                first_hit(self.blocks@, ball, i as int) is None,
            decreases self.blocks@.len() - i,
        {
            let shared = self.blocks[i].bounds().overlap(&ball);
            if shared.is_some() {
                proof {
                    lemma_hit_stays(self.blocks@, ball, i + 1, self.blocks@.len() as int);
                }
                let mut field = Blocks { blocks: Vec::new() };
                core::mem::swap(self, &mut field);
                let Blocks { mut blocks } = field;
                blocks.remove(i);
                *self = Blocks { blocks };
                return shared;
            }
            i = i + 1;
        }
        None
    }
}

/// A hit among the first blocks is the hit among all.
proof fn lemma_hit_stays(blocks: Seq<Block>, ball: Bounds, n: int, m: int)
    requires
        n <= m,
        first_hit(blocks, ball, n) is Some,
    ensures
        first_hit(blocks, ball, m) == first_hit(blocks, ball, n),
    decreases m - n,
{
    if n < m {
        lemma_hit_stays(blocks, ball, n, m - 1);
    }
}

} // verus!
