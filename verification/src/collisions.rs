use vstd::prelude::*;
use crate::vector::Vector2;

verus! {

/// An axis-aligned rectangle on the screen, in pixels.
#[derive(Debug, Copy, Clone, PartialEq, Eq)]
pub struct Bounds {
    pub position: Vector2<i32>,
    pub size: Vector2<i32>,
}

/// The smaller of two numbers.
pub open spec fn lower(a: int, b: int) -> int {
    if a <= b {
        a
    } else {
        b
    }
}

/// The greater of two numbers.
pub open spec fn upper(a: int, b: int) -> int {
    if a >= b {
        a
    } else {
        b
    }
}

/// What two stretches of one axis share, as a start and a length: the stretches are
/// given by start and length, and they share something if together they are at
/// least as long as the stretch that spans both.
pub open spec fn overlap_axis_spec(a_min: int, a_len: int, b_min: int, b_len: int) -> Option<
    (int, int),
> {
    let span = upper(a_min + a_len, b_min + b_len) - lower(a_min, b_min);
    let shared = a_len + b_len - span;
    if shared >= 0 {
        Some((upper(a_min, b_min), shared))
    } else {
        None
    }
}

/// Where the shared part of an axis starts and how long it is, if the two stretches
/// share something.
fn overlap_axis(a_min: i32, a_len: i32, b_min: i32, b_len: i32) -> (r: Option<(i32, i32)>)
    ensures
        match r {
            Some((start, shared)) => overlap_axis_spec(
                a_min as int,
                a_len as int,
                b_min as int,
                b_len as int,
            ) == Some((start as int, shared as int)),
            None => overlap_axis_spec(a_min as int, a_len as int, b_min as int, b_len as int)
                is None,
        },
{
    let a_max: i64 = a_min as i64 + a_len as i64;
    let b_max: i64 = b_min as i64 + b_len as i64;
    let total_min: i64 = if a_min <= b_min {
        a_min as i64
    } else {
        b_min as i64
    };
    let total_max: i64 = if a_max >= b_max {
        a_max
    } else {
        b_max
    };
    let difference: i64 = (a_len as i64 + b_len as i64) - (total_max - total_min);
    if difference >= 0 {
        let left_max: i32 = if a_min >= b_min {
            a_min
        } else {
            b_min
        };
        Some((left_max, difference as i32))
    } else {
        None
    }
}

impl Bounds {
    /// What the two rectangles share.
    pub open spec fn overlap_spec(self, other: Bounds) -> Option<Bounds> {
        match (
            overlap_axis_spec(
                self.position.x as int,
                self.size.x as int,
                other.position.x as int,
                other.size.x as int,
            ),
            overlap_axis_spec(
                self.position.y as int,
                self.size.y as int,
                other.position.y as int,
                other.size.y as int,
            ),
        ) {
            (Some(x), Some(y)) => Some(
                Bounds {
                    position: Vector2 { x: x.0 as i32, y: y.0 as i32 },
                    size: Vector2 { x: x.1 as i32, y: y.1 as i32 },
                },
            ),
            _ => None,
        }
    }

    /// Whether neither side of the rectangle is negative.
    pub open spec fn proper(self) -> bool {
        self.size.x >= 0 && self.size.y >= 0
    }

    /// The rectangle between two corners.
    pub fn from_min_max(min: Vector2<i32>, max: Vector2<i32>) -> (bounds: Bounds)
        requires
            i32::MIN <= max.x - min.x <= i32::MAX,
            i32::MIN <= max.y - min.y <= i32::MAX,
        ensures
            bounds.position == min,
            bounds.size.x == max.x - min.x,
            bounds.size.y == max.y - min.y,
    {
        Bounds { position: min, size: max.minus(min) }
    }

    pub fn min(&self) -> (corner: Vector2<i32>)
        ensures
            corner == self.position,
    {
        self.position
    }

    pub fn max(&self) -> (corner: Vector2<i32>)
        requires
            i32::MIN <= self.position.x + self.size.x <= i32::MAX,
            i32::MIN <= self.position.y + self.size.y <= i32::MAX,
        ensures
            corner.x == self.position.x + self.size.x,
            corner.y == self.position.y + self.size.y,
    {
        self.position.plus(self.size)
    }

    /// What the two rectangles share, if they meet; rectangles that only touch share a
    /// rectangle without area.
    pub fn overlap(&self, other: &Bounds) -> (shared: Option<Bounds>)
        ensures
            shared == self.overlap_spec(*other),
    {
        let x = match overlap_axis(self.position.x, self.size.x, other.position.x, other.size.x) {
            Some(x) => x,
            None => {
                return None;
            },
        };
        let y = match overlap_axis(self.position.y, self.size.y, other.position.y, other.size.y) {
            Some(y) => y,
            None => {
                return None;
            },
        };
        Some(Bounds { position: Vector2 { x: x.0, y: y.0 }, size: Vector2 { x: x.1, y: y.1 } })
    }
}

/// Two proper rectangles share something exactly if on both axes the later start is
/// not behind the earlier end, and what they share is the rectangle between the later
/// starts and the earlier ends. It lies within both and does not depend on which of
/// the two is asked.
pub proof fn lemma_overlap_is_intersection(a: Bounds, b: Bounds)
    requires
        a.proper(),
        b.proper(),
    ensures
        a.overlap_spec(b) == b.overlap_spec(a),
        a.overlap_spec(b) is Some <==> upper(a.position.x as int, b.position.x as int) <= lower(
            a.position.x + a.size.x,
            b.position.x + b.size.x,
        ) && upper(a.position.y as int, b.position.y as int) <= lower(
            a.position.y + a.size.y,
            b.position.y + b.size.y,
        ),
        a.overlap_spec(b) matches Some(shared) ==> {
            &&& shared.proper()
            &&& shared.position.x == upper(a.position.x as int, b.position.x as int)
            &&& shared.position.y == upper(a.position.y as int, b.position.y as int)
            &&& shared.position.x + shared.size.x == lower(
                a.position.x + a.size.x,
                b.position.x + b.size.x,
            )
            &&& shared.position.y + shared.size.y == lower(
                a.position.y + a.size.y,
                b.position.y + b.size.y,
            )
            &&& shared.size.x <= a.size.x && shared.size.x <= b.size.x
            &&& shared.size.y <= a.size.y && shared.size.y <= b.size.y
        },
{
}

} // verus!
