use vstd::prelude::*;
use crate::assets::Assets;
use crate::collisions::Bounds;
use crate::color::Color;
use crate::frame::registry_of;
use crate::context::RenderContext;
use crate::game::SCREEN_HEIGHT;
use crate::game::SCREEN_WIDTH;
use crate::instances::Instance;
use crate::layer::Layer;
use crate::vector::Vector2;

verus! {

/// The side of the ball, in pixels.
pub const BALL_SIZE: i32 = 16;

/// How far the ball moves along each axis in one step.
pub const BALL_SPEED: i32 = 4;

/// How far from the origin the ball may be for a step to be taken.
pub const BALL_RANGE: i32 = 1_000_000_000;

/// The ball. It moves by its velocity and is thrown back by the edges of the screen
/// and by what it runs into.
#[derive(Debug, Copy, Clone, PartialEq, Eq)]
pub struct Ball {
    position: Vector2<i32>,
    velocity: Vector2<i32>,
}

/// The direction of a velocity: -1, 0 or 1.
pub open spec fn direction(velocity: int) -> int {
    if velocity > 0 {
        1
    } else if velocity < 0 {
        -1
    } else {
        0
    }
}

/// The place and the velocity, on one axis, of a ball that has come to `position`
/// with `velocity`, after the edges at 0 and at `edge` have thrown it back: behind an
/// edge the ball is put as far inside as it was outside, and turned around.
pub open spec fn bounced(position: int, velocity: int, edge: int) -> (int, int) {
    let (inside, turned) = if position <= 0 {
        (-position, -velocity)
    } else {
        (position, velocity)
    };
    if inside >= edge {
        (edge - (inside - edge), -turned)
    } else {
        (inside, turned)
    }
}

/// The place and the velocity, on one axis, of a ball that is `depth` pixels deep in
/// something, if the collision `applies` to that axis: the ball is put back by the
/// depth against its direction, and turned around.
pub open spec fn thrown_back(position: int, velocity: int, depth: int, applies: bool) -> (
    int,
    int,
) {
    if applies {
        (position - depth * direction(velocity), -velocity)
    } else {
        (position, velocity)
    }
}

/// The position and the velocity of a ball after it has run into something with
/// which it shares `shared`. The collision applies to the axis on which the two share
/// less, and to both where they share the same on both.
pub open spec fn collided(position: Vector2<i32>, velocity: Vector2<i32>, shared: Bounds) -> (
    Vector2<i32>,
    Vector2<i32>,
) {
    let x = thrown_back(
        position.x as int,
        velocity.x as int,
        shared.size.x as int,
        shared.size.x <= shared.size.y,
    );
    let y = thrown_back(
        position.y as int,
        velocity.y as int,
        shared.size.y as int,
        shared.size.y <= shared.size.x,
    );
    (Vector2 { x: x.0 as i32, y: y.0 as i32 }, Vector2 { x: x.1 as i32, y: y.1 as i32 })
}

/// The position and the velocity of a ball after one step on a free screen.
pub open spec fn stepped(position: Vector2<i32>, velocity: Vector2<i32>) -> (
    Vector2<i32>,
    Vector2<i32>,
) {
    let x = bounced(position.x + velocity.x, velocity.x as int, SCREEN_WIDTH - BALL_SIZE);
    let y = bounced(position.y + velocity.y, velocity.y as int, SCREEN_HEIGHT - BALL_SIZE);
    (Vector2 { x: x.0 as i32, y: y.0 as i32 }, Vector2 { x: x.1 as i32, y: y.1 as i32 })
}

/// The rectangle that a ball at `position` covers.
pub open spec fn ball_bounds(position: Vector2<i32>) -> Bounds {
    Bounds { position, size: Vector2 { x: BALL_SIZE, y: BALL_SIZE } }
}

/// Whether the point is no further than `range` from the origin on both axes.
pub open spec fn within_range(position: Vector2<i32>, range: int) -> bool {
    &&& -range <= position.x <= range
    &&& -range <= position.y <= range
}

/// The direction of a velocity.
fn direction_of(velocity: i32) -> (d: i32)
    ensures
        d == direction(velocity as int),
{
    if velocity > 0 {
        1
    } else if velocity < 0 {
        -1
    } else {
        0
    }
}

impl Ball {
    #[verifier::type_invariant]
    pub closed spec fn inv(self) -> bool {
        &&& -BALL_SPEED <= self.velocity.x <= BALL_SPEED
        &&& -BALL_SPEED <= self.velocity.y <= BALL_SPEED
    }

    pub closed spec fn position(self) -> Vector2<i32> {
        self.position
    }

    pub closed spec fn velocity(self) -> Vector2<i32> {
        self.velocity
    }

    /// The ball is never faster than at the start.
    pub proof fn lemma_speed(self)
        requires
            self.inv(),
        ensures
            within_range(self.velocity(), BALL_SPEED as int),
    {
    }

    /// The ball in the middle of the screen, on its way up and to the right.
    pub fn new() -> (ball: Ball)
        ensures
            ball.position() == (Vector2::<i32> { x: 392, y: 292 }),
            ball.velocity() == (Vector2::<i32> { x: 4, y: 4 }),
    {
        Ball {
            position: Vector2 { x: 400 - BALL_SIZE / 2, y: 300 - BALL_SIZE / 2 },
            velocity: Vector2 { x: BALL_SPEED, y: BALL_SPEED },
        }
    }

    pub fn get_position(&self) -> (position: Vector2<i32>)
        ensures
            position == self.position(),
    {
        self.position
    }

    pub fn get_velocity(&self) -> (velocity: Vector2<i32>)
        ensures
            velocity == self.velocity(),
    {
        self.velocity
    }

    /// Whether the ball is near enough to the origin for a step to be taken.
    pub fn in_range(&self) -> (r: bool)
        ensures
            r == within_range(self.position(), BALL_RANGE as int),
    {
        -BALL_RANGE <= self.position.x && self.position.x <= BALL_RANGE && -BALL_RANGE
            <= self.position.y && self.position.y <= BALL_RANGE
    }

    /// One step of the ball on a free screen.
    pub fn update(&mut self)
        requires
            within_range(old(self).position(), BALL_RANGE as int),
        ensures
            (final(self).position(), final(self).velocity()) == stepped(
                old(self).position(),
                old(self).velocity(),
            ),
    {
        proof {
            use_type_invariant(&*self);
        }
        self.position = self.position.plus(self.velocity);
        self.bounce_edges();
    }

    pub fn render(&self, ctx: &mut RenderContext, assets: &Assets)
        ensures
            final(ctx).clear_color() == old(ctx).clear_color(),
            final(ctx).textures() == registry_of(final(ctx).instances()),
            final(ctx).instances() == old(ctx).instances().push(
                Instance {
                    position: self.position(),
                    sprite: assets.ball(),
                    layer: Layer(0),
                    tint: Color::opaque(255, 255, 255),
                },
            ),
    {
        ctx.draw_sprite(assets.get_ball(), self.position, Layer(0), Color::white());
    }

    /// Throws the ball back from the edges of the screen.
    fn bounce_edges(&mut self)
        requires
            within_range(old(self).position(), BALL_RANGE + BALL_SPEED),
        ensures
            (final(self).position().x as int, final(self).velocity().x as int) == bounced(
                old(self).position().x as int,
                old(self).velocity().x as int,
                SCREEN_WIDTH - BALL_SIZE,
            ),
            (final(self).position().y as int, final(self).velocity().y as int) == bounced(
                old(self).position().y as int,
                old(self).velocity().y as int,
                SCREEN_HEIGHT - BALL_SIZE,
            ),
    {
        proof {
            use_type_invariant(&*self);
        }
        let mut position = self.position;
        let mut velocity = self.velocity;
        let left_edge: i32 = 0;
        if position.x <= left_edge {
            position.x = -position.x;
            velocity.x = -velocity.x;
        }
        let right_edge: i32 = SCREEN_WIDTH - BALL_SIZE;
        if position.x >= right_edge {
            position.x = right_edge - (position.x - right_edge);
            velocity.x = -velocity.x;
        }
        let bottom_edge: i32 = 0;
        if position.y <= bottom_edge {
            position.y = -position.y;
            velocity.y = -velocity.y;
        }
        let top_edge: i32 = SCREEN_HEIGHT - BALL_SIZE;
        if position.y >= top_edge {
            position.y = top_edge - (position.y - top_edge);
            velocity.y = -velocity.y;
        }
        self.position = position;
        self.velocity = velocity;
    }

    pub fn bounds(&self) -> (bounds: Bounds)
        ensures
            bounds == ball_bounds(self.position()),
    {
        Bounds { position: self.position, size: Vector2 { x: BALL_SIZE, y: BALL_SIZE } }
    }

    /// Throws the ball back from something with which it shares `bounds`. Says
    /// whether the two share an area.
    pub fn handle_collision(&mut self, bounds: &Bounds) -> (solid: bool)
        requires
            within_range(old(self).position(), BALL_RANGE as int),
            within_range(bounds.size, BALL_RANGE as int),
        ensures
            (final(self).position(), final(self).velocity()) == collided(
                old(self).position(),
                old(self).velocity(),
                *bounds,
            ),
            solid == (bounds.size.x > 0 && bounds.size.y > 0),
    {
        proof {
            use_type_invariant(&*self);
        }
        let vertical_collision = bounds.size.y <= bounds.size.x;
        let horizontal_collision = bounds.size.x <= bounds.size.y;
        let mut position = self.position;
        let mut velocity = self.velocity;
        if vertical_collision {
            let d = direction_of(velocity.y);
            assert(bounds.size.y * d == bounds.size.y || bounds.size.y * d == -bounds.size.y
                || bounds.size.y * d == 0) by (nonlinear_arith)
                requires
                    d == 1 || d == -1 || d == 0,
            ;
            position.y = position.y - bounds.size.y * d;
            velocity.y = -velocity.y;
        }
        if horizontal_collision {
            let d = direction_of(velocity.x);
            assert(bounds.size.x * d == bounds.size.x || bounds.size.x * d == -bounds.size.x
                || bounds.size.x * d == 0) by (nonlinear_arith)
                requires
                    d == 1 || d == -1 || d == 0,
            ;
            position.x = position.x - bounds.size.x * d;
            velocity.x = -velocity.x;
        }
        self.position = position;
        self.velocity = velocity;
        bounds.size.x > 0 && bounds.size.y > 0
    }
}

} // verus!
