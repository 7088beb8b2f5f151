use vstd::prelude::*;

verus! {

/// A pair of coordinates: a point, an offset or an extent, depending on where it is used.
#[derive(Debug, Copy, PartialEq, Eq, Hash)]
pub struct Vector2<T> {
    pub x: T,
    pub y: T,
}

impl<T: Copy> Clone for Vector2<T> {
    fn clone(&self) -> (copy: Self)
        ensures
            copy == *self,
    {
        *self
    }
}

impl<T> Vector2<T> {
    pub fn new(x: T, y: T) -> (v: Vector2<T>)
        ensures
            v.x == x,
            v.y == y,
    {
        Vector2 { x, y }
    }
}

/// Whether the number is in the range of `i32`.
pub open spec fn fits_i32(n: int) -> bool {
    i32::MIN <= n <= i32::MAX
}

impl Vector2<i32> {
    /// The sum of two vectors, coordinate by coordinate.
    pub fn plus(self, other: Vector2<i32>) -> (sum: Vector2<i32>)
        requires
            fits_i32(self.x + other.x),
            fits_i32(self.y + other.y),
        ensures
            sum.x == self.x + other.x,
            sum.y == self.y + other.y,
    {
        Vector2 { x: self.x + other.x, y: self.y + other.y }
    }

    /// The difference of two vectors, coordinate by coordinate.
    pub fn minus(self, other: Vector2<i32>) -> (difference: Vector2<i32>)
        requires
            fits_i32(self.x - other.x),
            fits_i32(self.y - other.y),
        ensures
            difference.x == self.x - other.x,
            difference.y == self.y - other.y,
    {
        Vector2 { x: self.x - other.x, y: self.y - other.y }
    }

    /// The vector made longer by a factor.
    pub fn scaled(self, factor: i32) -> (product: Vector2<i32>)
        requires
            fits_i32(factor * self.x),
            fits_i32(factor * self.y),
        ensures
            product.x == factor * self.x,
            product.y == factor * self.y,
    {
        Vector2 { x: factor * self.x, y: factor * self.y }
    }
}

} // verus!
