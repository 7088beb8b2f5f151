use vstd::prelude::*;
use crate::assets::Assets;
use crate::ball::ball_bounds;
use crate::ball::collided;
use crate::ball::direction;
use crate::ball::thrown_back;
use crate::ball::stepped;
use crate::ball::within_range;
use crate::ball::Ball;
use crate::block::block_instances;
use crate::block::first_hit;
use crate::block::is_starting_field;
use crate::block::lemma_first_hit;
use crate::block::Block;
use crate::block::Blocks;
use crate::collisions::lemma_overlap_is_intersection;
use crate::collisions::Bounds;
use crate::color::Color;
use crate::frame::registry_of;
use crate::context::RenderContext;
use crate::input::steering;
use crate::input::Input;
use crate::input::InputAxis;
use crate::input::WindowEvent;
use crate::instances::Instance;
use crate::layer::Layer;
use crate::palette::constrained;
use crate::palette::palette_instances;
use crate::palette::steered;
use crate::palette::Palette;
use crate::vector::Vector2;

verus! {

/// The number of steps of the game in one second.
pub const STEPS_PER_SECOND: u32 = 60;

/// The width of the screen that the game is played on, in pixels.
pub const SCREEN_WIDTH: i32 = 800;

/// The height of the screen that the game is played on, in pixels.
pub const SCREEN_HEIGHT: i32 = 600;

/// How far from the origin the ball may be for a step of the game to be taken.
pub const GAME_RANGE: i32 = 999_000_000;

/// A game: a ball, the palette that the player steers, and the blocks to break.
#[derive(Debug)]
pub struct Arkanoid {
    assets: Assets,
    input: Input,
    ball: Ball,
    palette: Palette,
    blocks: Blocks,
}

/// The ball and the blocks after the ball has broken what is in its way: as long as
/// the ball meets a block, the first such block breaks and throws the ball back; a
/// block that the ball only touches breaks too, and ends the step.
pub open spec fn after_blocks(position: Vector2<i32>, velocity: Vector2<i32>, blocks: Seq<Block>) -> (
    Vector2<i32>,
    Vector2<i32>,
    Seq<Block>,
)
    decreases blocks.len(),
{
    match first_hit(blocks, ball_bounds(position), blocks.len() as int) {
        Some(i) => if 0 <= i < blocks.len() {
            let shared = blocks[i].bounds_spec().overlap_spec(ball_bounds(position))->Some_0;
            let thrown = collided(position, velocity, shared);
            if shared.size.x > 0 && shared.size.y > 0 {
                after_blocks(thrown.0, thrown.1, blocks.remove(i))
            } else {
                (thrown.0, thrown.1, blocks.remove(i))
            }
        } else {
            (position, velocity, blocks)
        },
        None => (position, velocity, blocks),
    }
}

/// The ball after it has met the palette with the given rectangle, if it does.
pub open spec fn after_palette(position: Vector2<i32>, velocity: Vector2<i32>, palette: Bounds) -> (
    Vector2<i32>,
    Vector2<i32>,
) {
    match ball_bounds(position).overlap_spec(palette) {
        Some(shared) => collided(position, velocity, shared),
        None => (position, velocity),
    }
}

/// The colour of the sky behind the game.
pub open spec fn sky() -> Color {
    Color { r: 98, g: 154, b: 255, a: 255 }
}

/// A ball that is thrown back from something moves by no more than it shares with it.
proof fn lemma_thrown_back_range(position: Vector2<i32>, velocity: Vector2<i32>, shared: Bounds)
    requires
        0 <= shared.size.x <= 16,
        0 <= shared.size.y <= 16,
    ensures
        ({
            let thrown = (
                thrown_back(
                    position.x as int,
                    velocity.x as int,
                    shared.size.x as int,
                    shared.size.x <= shared.size.y,
                ),
                thrown_back(
                    position.y as int,
                    velocity.y as int,
                    shared.size.y as int,
                    shared.size.y <= shared.size.x,
                ),
            );
            &&& position.x - 16 <= thrown.0.0 <= position.x + 16
            &&& position.y - 16 <= thrown.1.0 <= position.y + 16
        }),
{
    assert(shared.size.x * direction(velocity.x as int) == shared.size.x || shared.size.x
        * direction(velocity.x as int) == -shared.size.x || shared.size.x * direction(
        velocity.x as int,
    ) == 0) by (nonlinear_arith)
        requires
            direction(velocity.x as int) == 1 || direction(velocity.x as int) == -1 || direction(
                velocity.x as int,
            ) == 0,
    ;
    assert(shared.size.y * direction(velocity.y as int) == shared.size.y || shared.size.y
        * direction(velocity.y as int) == -shared.size.y || shared.size.y * direction(
        velocity.y as int,
    ) == 0) by (nonlinear_arith)
        requires
            direction(velocity.y as int) == 1 || direction(velocity.y as int) == -1 || direction(
                velocity.y as int,
            ) == 0,
    ;
}

impl Arkanoid {
    pub closed spec fn assets(self) -> Assets {
        self.assets
    }

    pub closed spec fn input(self) -> Input {
        self.input
    }

    pub closed spec fn ball(self) -> Ball {
        self.ball
    }

    pub closed spec fn palette(self) -> Palette {
        self.palette
    }

    pub closed spec fn blocks(self) -> Blocks {
        self.blocks
    }

    /// A new game with the given sprites.
    pub fn create(assets: Assets) -> (game: Arkanoid)
        ensures
            game.assets() == assets,
            game.input().axes() == map![
                InputAxis::PaletteLeft => false,
                InputAxis::PaletteRight => false,
            ],
            game.ball().position() == (Vector2::<i32> { x: 392, y: 292 }),
            game.ball().velocity() == (Vector2::<i32> { x: 4, y: 4 }),
            game.palette().position() == (Vector2::<i32> { x: 400, y: 16 }),
            game.palette().length() == 10,
            is_starting_field(game.blocks().blocks()),
    {
        Arkanoid {
            assets,
            input: Input::new(),
            ball: Ball::new(),
            palette: Palette::new(),
            blocks: Blocks::new(),
        }
    }

    pub fn steps_per_second(&self) -> (steps: u32)
        ensures
            steps == STEPS_PER_SECOND,
    {
        STEPS_PER_SECOND
    }

    pub fn get_ball(&self) -> (ball: &Ball)
        ensures
            *ball == self.ball(),
    {
        &self.ball
    }

    pub fn get_palette(&self) -> (palette: &Palette)
        ensures
            *palette == self.palette(),
    {
        &self.palette
    }

    pub fn get_blocks(&self) -> (blocks: &Blocks)
        ensures
            *blocks == self.blocks(),
    {
        &self.blocks
    }

    pub fn get_input(&self) -> (input: &Input)
        ensures
            *input == self.input(),
    {
        &self.input
    }

    /// Takes note of an event of the window. Says whether the game used it.
    pub fn handle_event(&mut self, event: &WindowEvent) -> (handled: bool)
        ensures
            handled == steering(*event).is_some(),
            final(self).input().axes() == match steering(*event) {
                Some((axis, held)) => old(self).input().axes().insert(axis, held),
                None => old(self).input().axes(),
            },
            final(self).assets() == old(self).assets(),
            final(self).ball() == old(self).ball(),
            final(self).palette() == old(self).palette(),
            final(self).blocks() == old(self).blocks(),
    {
        self.input.handle_event(event)
    }

    /// Whether the ball is near enough to the origin for a step to be taken.
    pub fn can_update(&self) -> (r: bool)
        ensures
            r == within_range(self.ball().position(), GAME_RANGE as int),
    {
        let position = self.ball.get_position();
        -GAME_RANGE <= position.x && position.x <= GAME_RANGE && -GAME_RANGE <= position.y
            && position.y <= GAME_RANGE
    }

    /// One step of the game: the ball and the palette move, the palette throws the
    /// ball back if the two meet, and the ball breaks the blocks in its way.
    pub fn update(&mut self)
        requires
            within_range(old(self).ball().position(), GAME_RANGE as int),
        ensures
            final(self).assets() == old(self).assets(),
            final(self).input() == old(self).input(),
            final(self).palette().length() == old(self).palette().length(),
            final(self).palette().position().y == old(self).palette().position().y,
            final(self).palette().position().x == constrained(
                steered(
                    old(self).palette().position().x as int,
                    old(self).input().axes()[InputAxis::PaletteLeft],
                    old(self).input().axes()[InputAxis::PaletteRight],
                ),
                160,
            ),
            ({
                let moved = stepped(old(self).ball().position(), old(self).ball().velocity());
                let met = after_palette(
                    moved.0,
                    moved.1,
                    Bounds {
                        position: final(self).palette().position(),
                        size: Vector2 { x: 160, y: 16 },
                    },
                );
                (
                    final(self).ball().position(),
                    final(self).ball().velocity(),
                    final(self).blocks().blocks(),
                ) == after_blocks(met.0, met.1, old(self).blocks().blocks())
            }),
    {
        proof {
            use_type_invariant(&self.ball);
            self.ball.lemma_speed();
        }
        self.ball.update();
        self.palette.update(&self.input);
        self.meet_palette();
        self.break_blocks();
    }

    /// Throws the ball back from the palette if the two meet.
    fn meet_palette(&mut self)
        requires
            within_range(old(self).ball.position(), GAME_RANGE + 1600),
        ensures
            final(self).assets == old(self).assets,
            final(self).input == old(self).input,
            final(self).palette == old(self).palette,
            final(self).blocks == old(self).blocks,
            (final(self).ball.position(), final(self).ball.velocity()) == after_palette(
                old(self).ball.position(),
                old(self).ball.velocity(),
                Bounds {
                    position: old(self).palette.position(),
                    size: Vector2 { x: 160, y: 16 },
                },
            ),
            within_range(final(self).ball.position(), GAME_RANGE + 1616),
    {
        let ball_bounds = self.ball.bounds();
        let palette_bounds = self.palette.bounds();
        proof {
            lemma_overlap_is_intersection(ball_bounds, palette_bounds);
        }
        let ball_palette_collision = ball_bounds.overlap(&palette_bounds);
        if let Some(bounds) = ball_palette_collision {
            proof {
                use_type_invariant(&self.ball);
                self.ball.lemma_speed();
                lemma_thrown_back_range(self.ball.position(), self.ball.velocity(), bounds);
            }
            self.ball.handle_collision(&bounds);
        }
    }

    /// Breaks the first block in the way of the ball, if there is one, and throws the
    /// ball back from it. Says whether the ball may meet another block.
    fn break_block(&mut self) -> (goes_on: bool)
        requires
            old(self).blocks.blocks().len() <= 150,
            within_range(
                old(self).ball.position(),
                GAME_RANGE + 2000 + 16 * (150 - old(self).blocks.blocks().len()),
            ),
        ensures
            final(self).assets == old(self).assets,
            final(self).input == old(self).input,
            final(self).palette == old(self).palette,
            final(self).blocks.blocks().len() <= old(self).blocks.blocks().len(),
            goes_on ==> final(self).blocks.blocks().len() < old(self).blocks.blocks().len(),
            within_range(
                final(self).ball.position(),
                GAME_RANGE + 2000 + 16 * (150 - final(self).blocks.blocks().len()),
            ),
            after_blocks(
                old(self).ball.position(),
                old(self).ball.velocity(),
                old(self).blocks.blocks(),
            ) == if goes_on {
                after_blocks(
                    final(self).ball.position(),
                    final(self).ball.velocity(),
                    final(self).blocks.blocks(),
                )
            } else {
                (final(self).ball.position(), final(self).ball.velocity(), final(self).blocks.blocks())
            },
    {
        let ball = self.ball.bounds();
        let ghost before = self.blocks.blocks();
        proof {
            lemma_first_hit(before, ball, before.len() as int);
        }
        match self.blocks.handle_collisions(ball) {
            Some(bounds) => {
                proof {
                    let i = first_hit(before, ball, before.len() as int)->Some_0;
                    lemma_overlap_is_intersection(before[i].bounds_spec(), ball);
                    use_type_invariant(&self.ball);
                    self.ball.lemma_speed();
                    lemma_thrown_back_range(self.ball.position(), self.ball.velocity(), bounds);
                }
                self.ball.handle_collision(&bounds)
            },
            None => false,
        }
    }

    /// Lets the ball break the blocks in its way.
    fn break_blocks(&mut self)
        requires
            within_range(old(self).ball.position(), GAME_RANGE + 2000),
        ensures
            final(self).assets == old(self).assets,
            final(self).input == old(self).input,
            final(self).palette == old(self).palette,
            (
                final(self).ball.position(),
                final(self).ball.velocity(),
                final(self).blocks.blocks(),
            ) == after_blocks(
                old(self).ball.position(),
                old(self).ball.velocity(),
                old(self).blocks.blocks(),
            ),
    {
        proof {
            use_type_invariant(&self.blocks);
            self.blocks.lemma_count();
        }
        let mut goes_on = true;
        while goes_on
            invariant
                self.assets == old(self).assets,
                self.input == old(self).input,
                self.palette == old(self).palette,
                self.blocks.blocks().len() <= 150,
                within_range(
                    self.ball.position(),
                    GAME_RANGE + 2000 + 16 * (150 - self.blocks.blocks().len()),
                ),
                after_blocks(
                    old(self).ball.position(),
                    old(self).ball.velocity(),
                    old(self).blocks.blocks(),
                ) == if goes_on {
                    after_blocks(self.ball.position(), self.ball.velocity(), self.blocks.blocks())
                } else {
                    (self.ball.position(), self.ball.velocity(), self.blocks.blocks())
                },
            decreases
                    if goes_on {
                        self.blocks.blocks().len() + 1
                    } else {
                        0
                    },
        {
            goes_on = self.break_block();
        }
    }

    /// Draws the game: the sky, the ball, the palette and the blocks that are left.
    pub fn render(&self, ctx: &mut RenderContext)
        ensures
            final(ctx).clear_color() == sky(),
            final(ctx).textures() == registry_of(final(ctx).instances()),
            final(ctx).instances() == old(ctx).instances().push(
                Instance {
                    position: self.ball().position(),
                    sprite: self.assets().ball(),
                    layer: Layer(0),
                    tint: Color::opaque(255, 255, 255),
                },
            ) + palette_instances(
                self.palette().position(),
                self.palette().length(),
                self.assets().palette(),
            ) + block_instances(self.blocks().blocks(), self.assets().block()),
    {
        ctx.set_clear_color(Color { r: 98, g: 154, b: 255, a: 255 });
        self.ball.render(ctx, &self.assets);
        self.palette.render(ctx, &self.assets);
        self.blocks.render(ctx, &self.assets);
    }
}

} // verus!
