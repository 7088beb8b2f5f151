use vstd::prelude::*;
use crate::vector::Vector2;

verus! {

/// What the renderer knows of a loaded texture: its stable identifier and its extent
/// in texels. The pixel data itself lives on the GPU and is found again by `id`.
#[derive(Debug, Copy, Clone, PartialEq, Eq, Hash)]
pub struct Texture {
    pub id: usize,
    pub size: Vector2<u32>,
}

impl Texture {
    pub fn new(id: usize, width: u32, height: u32) -> (t: Texture)
        ensures
            t.id == id,
            t.size.x == width,
            t.size.y == height,
    {
        Texture { id, size: Vector2 { x: width, y: height } }
    }
}

} // verus!
