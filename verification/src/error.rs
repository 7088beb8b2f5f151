use vstd::prelude::*;

verus! {

/// What a drawing or slicing call can fail with.
#[derive(Debug, Copy, Clone, PartialEq, Eq, Structural)]
pub enum Error {
    /// A slice reaches beyond the extent of the texture behind the sprite.
    OutOfBounds,
    /// The font has no glyph for this character, nor a fallback that resolves.
    MissingGlyph(char),
    /// A glyph would land on a pixel coordinate outside the range of `i32`.
    PositionOverflow,
}

} // verus!
