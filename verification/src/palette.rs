use vstd::prelude::*;
use crate::assets::Assets;
use crate::collisions::Bounds;
use crate::color::Color;
use crate::frame::registry_of;
use crate::context::RenderContext;
use crate::game::SCREEN_WIDTH;
use crate::input::Input;
use crate::input::InputAxis;
use crate::instances::Instance;
use crate::layer::Layer;
use crate::sprite::Sprite;
use crate::vector::Vector2;

verus! {

/// The side of one tile of the palette, in pixels.
pub const PALETTE_CELL_SIZE: i32 = 16;

/// The number of tiles that the palette is made of.
pub const PALETTE_SIZE: i32 = 10;

/// How far the palette moves in one step while it is steered.
pub const PALETTE_VELOCITY: i32 = 3;

/// The height at which the palette moves.
pub const PALETTE_HEIGHT: i32 = 16;

/// The bat at the bottom of the screen. It moves left and right and stays on the
/// screen.
#[derive(Debug, Copy, Clone, PartialEq, Eq)]
pub struct Palette {
    position: Vector2<i32>,
    size: i32,
}

/// Where a palette at `x` is after one step in which the given axes are held.
pub open spec fn steered(x: int, left: bool, right: bool) -> int {
    let moved_left = if left {
        x - PALETTE_VELOCITY
    } else {
        x
    };
    if right {
        moved_left + PALETTE_VELOCITY
    } else {
        moved_left
    }
}

/// The place nearest to `x` at which a palette of the given width is on the screen.
pub open spec fn constrained(x: int, width: int) -> int {
    if x < 0 {
        0
    } else if x > SCREEN_WIDTH - width {
        SCREEN_WIDTH - width
    } else {
        x
    }
}

/// The tile at place `i` of a palette of `size` tiles: the first of the three tiles
/// at the left end, the third at the right end and the second between them.
pub open spec fn tile_at(tiles: Seq<Sprite>, size: int, i: int) -> Sprite {
    if i == 0 {
        tiles[0]
    } else if i == size - 1 {
        tiles[2]
    } else {
        tiles[1]
    }
}

/// The draw calls for a palette at `position`: its tiles from left to right.
pub open spec fn palette_instances(position: Vector2<i32>, size: int, tiles: Seq<Sprite>) -> Seq<
    Instance,
> {
    Seq::new(
        size as nat,
        |i: int|
            Instance {
                position: Vector2 {
                    x: (position.x + i * PALETTE_CELL_SIZE) as i32,
                    y: position.y,
                },
                sprite: tile_at(tiles, size, i),
                layer: Layer(0),
                tint: Color::opaque(255, 255, 255),
            },
    )
}

impl Palette {
    #[verifier::type_invariant]
    pub closed spec fn inv(self) -> bool {
        &&& self.size == PALETTE_SIZE
        &&& 0 <= self.position.x <= SCREEN_WIDTH - PALETTE_CELL_SIZE * PALETTE_SIZE
        &&& self.position.y == PALETTE_HEIGHT
    }

    pub closed spec fn position(self) -> Vector2<i32> {
        self.position
    }

    /// The number of tiles.
    pub closed spec fn length(self) -> int {
        self.size as int
    }

    /// The palette is on the screen.
    pub proof fn lemma_on_screen(self)
        requires
            self.inv(),
        ensures
            self.length() == PALETTE_SIZE,
            0 <= self.position().x <= SCREEN_WIDTH - PALETTE_CELL_SIZE * PALETTE_SIZE,
            self.position().y == PALETTE_HEIGHT,
    {
    }

    /// The palette in the middle of the screen.
    pub fn new() -> (palette: Palette)
        ensures
            palette.position() == (Vector2::<i32> { x: 400, y: 16 }),
            palette.length() == PALETTE_SIZE,
    {
        Palette { position: Vector2 { x: SCREEN_WIDTH / 2, y: PALETTE_HEIGHT }, size: PALETTE_SIZE }
    }

    pub fn get_position(&self) -> (position: Vector2<i32>)
        ensures
            position == self.position(),
    {
        self.position
    }

    /// The extent of the palette in pixels.
    fn size(&self) -> (size: Vector2<i32>)
        ensures
            size.x == PALETTE_CELL_SIZE * self.length(),
            size.y == PALETTE_CELL_SIZE,
            size.x == 160,
    {
        proof {
            use_type_invariant(self);
        }
        Vector2 { x: PALETTE_CELL_SIZE * self.size, y: PALETTE_CELL_SIZE }
    }

    /// One step of the palette: it moves where it is steered and stops at the edges
    /// of the screen.
    pub fn update(&mut self, input: &Input)
        ensures
            final(self).length() == old(self).length(),
            final(self).position().y == old(self).position().y,
            final(self).position().x == constrained(
                steered(
                    old(self).position().x as int,
                    input.axes()[InputAxis::PaletteLeft],
                    input.axes()[InputAxis::PaletteRight],
                ),
                PALETTE_CELL_SIZE * PALETTE_SIZE,
            ),
    {
        proof {
            use_type_invariant(&*self);
        }
        let mut x = self.position.x;
        if input.get_axis(&InputAxis::PaletteLeft) {
            x = x - PALETTE_VELOCITY;
        }
        if input.get_axis(&InputAxis::PaletteRight) {
            x = x + PALETTE_VELOCITY;
        }
        let width = self.size().x;
        if x < 0 {
            x = 0;
        } else if x > SCREEN_WIDTH - width {
            x = SCREEN_WIDTH - width;
        }
        self.position = Vector2 { x, y: self.position.y };
    }

    /// Draws the palette tile by tile.
    pub fn render(&self, ctx: &mut RenderContext, assets: &Assets)
        ensures
            final(ctx).clear_color() == old(ctx).clear_color(),
            final(ctx).textures() == registry_of(final(ctx).instances()),
            final(ctx).instances() == old(ctx).instances() + palette_instances(
                self.position(),
                self.length(),
                assets.palette(),
            ),
    {
        proof {
            use_type_invariant(self);
            use_type_invariant(&*ctx);
            ctx.lemma_textures();
        }
        let tiles = assets.get_palette();
        let ghost drawn = ctx.instances();
        let ghost all = palette_instances(self.position, self.size as int, tiles@);
        let mut i: i32 = 0;
        while i < self.size
            invariant
                0 <= i <= self.size,
                self.size == PALETTE_SIZE,
                0 <= self.position.x <= SCREEN_WIDTH - PALETTE_CELL_SIZE * PALETTE_SIZE,
                self.position.y == PALETTE_HEIGHT,
                tiles@.len() >= 3,
                all == palette_instances(self.position, self.size as int, tiles@),
                ctx.clear_color() == old(ctx).clear_color(),
                ctx.textures() == registry_of(ctx.instances()),
                ctx.instances() == drawn + all.take(i as int),
            decreases self.size - i,
        {
            let sprite = if i == 0 {
                &tiles[0]
            } else if i == self.size - 1 {
                &tiles[2]
            } else {
                &tiles[1]
            };
            let tile_offset = Vector2 { x: PALETTE_CELL_SIZE, y: 0 };
            assert(i * tile_offset.y == 0 && i * tile_offset.x == i * 16) by (nonlinear_arith)
                requires
                    tile_offset.y == 0,
                    tile_offset.x == 16,
            ;
            let position = self.position.plus(tile_offset.scaled(i));
            ctx.draw_sprite(sprite, position, Layer(0), Color::white());
            i = i + 1;
        }
    }

    pub fn bounds(&self) -> (bounds: Bounds)
        ensures
            bounds.position == self.position(),
            bounds.size == (Vector2::<i32> { x: 160, y: 16 }),
    {
        Bounds { position: self.position, size: self.size() }
    }
}

} // verus!
