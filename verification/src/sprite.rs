use vstd::prelude::*;
use crate::error::Error;
use crate::texture::Texture;
use crate::vector::Vector2;

verus! {

/// A rectangular region of a texture, the unit of drawing.
///
/// The region always lies within the texture: `offset + size <= texture.size` on both
/// axes.
#[derive(Debug, Copy, Clone, PartialEq, Eq, Hash)]
pub struct Sprite {
    texture: Texture,
    size: Vector2<u32>,
    offset: Vector2<u32>,
}

/// Whether the rectangle of the given offset and size lies within a texture of extent
/// `extent`.
pub open spec fn within(extent: Vector2<u32>, size: Vector2<u32>, offset: Vector2<u32>) -> bool {
    &&& offset.x + size.x <= extent.x
    &&& offset.y + size.y <= extent.y
}

impl Sprite {
    #[verifier::type_invariant]
    pub closed spec fn inv(self) -> bool {
        within(self.texture.size, self.size, self.offset)
    }

    /// The texture this sprite is cut from.
    pub closed spec fn texture(self) -> Texture {
        self.texture
    }

    /// The extent of the region, in texels.
    pub closed spec fn size(self) -> Vector2<u32> {
        self.size
    }

    /// The top-left corner of the region within the texture, in texels.
    pub closed spec fn offset(self) -> Vector2<u32> {
        self.offset
    }

    /// The invariant in terms of the three accessors.
    pub proof fn lemma_within(self)
        requires
            self.inv(),
        ensures
            within(self.texture().size, self.size(), self.offset()),
    {
    }

    /// Two sprites with the same texture, size and offset are the same sprite.
    pub proof fn lemma_ext(self, other: Sprite)
        requires
            self.texture() == other.texture(),
            self.size() == other.size(),
            self.offset() == other.offset(),
        ensures
            self == other,
    {
    }

    /// The sprite that covers the whole of `texture`.
    pub fn from_whole_texture(texture: &Texture) -> (sprite: Sprite)
        ensures
            sprite.texture() == *texture,
            sprite.offset() == (Vector2::<u32> { x: 0, y: 0 }),
            sprite.size() == texture.size,
    {
        Sprite { texture: *texture, offset: Vector2 { x: 0, y: 0 }, size: texture.size }
    }

    /// The sprite of the given size at the given offset in the same texture; the offset
    /// counts from the texture's origin. Fails if the region does not lie within the
    /// texture.
    pub fn slice(&self, size: Vector2<u32>, offset: Vector2<u32>) -> (r: Result<Sprite, Error>)
        ensures
            within(self.texture().size, size, offset) <==> r is Ok,
            r matches Ok(s) ==> s.texture() == self.texture() && s.size() == size && s.offset()
                == offset,
            r matches Err(e) ==> e == Error::OutOfBounds,
    {
        let extent = self.texture.size;
        if size.x <= extent.x && offset.x <= extent.x - size.x && size.y <= extent.y && offset.y
            <= extent.y - size.y {
            Ok(Sprite { texture: self.texture, size, offset })
        } else {
            Err(Error::OutOfBounds)
        }
    }

    pub fn get_texture(&self) -> (t: Texture)
        ensures
            t == self.texture(),
    {
        self.texture
    }

    pub fn get_size(&self) -> (s: Vector2<u32>)
        ensures
            s == self.size(),
    {
        self.size
    }

    pub fn get_offset(&self) -> (o: Vector2<u32>)
        ensures
            o == self.offset(),
    {
        self.offset
    }
}

} // verus!
