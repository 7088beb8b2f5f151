use vstd::prelude::*;
use crate::grid::is_grid_cell;
use crate::grid::GridMode;
use crate::sprite::Sprite;
use crate::vector::Vector2;

verus! {

/// The side of one tile of the palette, in texels.
pub const PALETTE_TILE_SIZE: u32 = 16;

/// The sprites that the game draws: the ball, the tiles of the palette and a block.
/// There are at least three palette tiles: a left end, a middle and a right end.
#[derive(Debug)]
pub struct Assets {
    ball: Sprite,
    palette: Vec<Sprite>,
    block: Sprite,
}

impl Assets {
    #[verifier::type_invariant]
    pub closed spec fn inv(self) -> bool {
        self.palette@.len() >= 3
    }

    pub closed spec fn ball(self) -> Sprite {
        self.ball
    }

    pub closed spec fn palette(self) -> Seq<Sprite> {
        self.palette@
    }

    pub closed spec fn block(self) -> Sprite {
        self.block
    }

    /// There are three palette tiles or more.
    pub proof fn lemma_palette_tiles(self)
        requires
            self.inv(),
        ensures
            self.palette().len() >= 3,
    {
    }

    /// The assets with the given ball and block and with the palette tiles cut from
    /// `palette_sheet`, which holds them in a grid of squares of sixteen texels. There
    /// are none if the sheet holds fewer than three tiles.
    pub fn from_sprites(ball: Sprite, palette_sheet: Sprite, block: Sprite) -> (assets: Option<
        Assets,
    >)
        ensures
            ({
                let columns = palette_sheet.size().x as int / 16;
                let rows = palette_sheet.size().y as int / 16;
                &&& assets is Some <==> columns * rows >= 3
                &&& assets matches Some(assets) ==> {
                    &&& assets.ball() == ball
                    &&& assets.block() == block
                    &&& assets.palette().len() == columns * rows
                    &&& forall|k: int|
                        0 <= k < assets.palette().len() ==> is_grid_cell(
                            #[trigger] assets.palette()[k],
                            palette_sheet,
                            16,
                            16,
                            k % columns,
                            k / columns,
                        )
                }
            }),
    {
        let palette = palette_sheet.uniform_grid(
            GridMode::CellSize(Vector2 { x: PALETTE_TILE_SIZE, y: PALETTE_TILE_SIZE }),
        );
        if palette.len() >= 3 {
            Some(Assets { ball, palette, block })
        } else {
            None
        }
    }

    pub fn get_ball(&self) -> (sprite: &Sprite)
        ensures
            *sprite == self.ball(),
    {
        &self.ball
    }

    pub fn get_block(&self) -> (sprite: &Sprite)
        ensures
            *sprite == self.block(),
    {
        &self.block
    }

    pub fn get_palette(&self) -> (tiles: &Vec<Sprite>)
        ensures
            tiles@ == self.palette(),
            tiles@.len() >= 3,
    {
        proof {
            use_type_invariant(self);
        }
        &self.palette
    }
}

} // verus!
