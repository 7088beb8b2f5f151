use vstd::prelude::*;
use crate::vector::Vector2;

verus! {

/// The view of a screen of a given size in pixels. Pixels count from the bottom left
/// corner, to the right and upwards; the camera maps them to device coordinates,
/// which run from -1 to 1 over the screen on both axes.
///
/// A device coordinate is a fraction: `project` gives the numerators, and the
/// denominators are the width and the height of the screen.
#[derive(Debug, Copy, Clone, PartialEq, Eq)]
pub struct Camera {
    screen_size: Vector2<u32>,
}

/// The numerator, over `extent`, of the device coordinate of `pixel` on an axis of
/// `extent` pixels: the pixel is scaled by `2 / extent` and moved by -1.
pub open spec fn device_numerator(pixel: int, extent: int) -> int {
    2 * pixel - extent
}

impl Camera {
    pub closed spec fn screen_size(self) -> Vector2<u32> {
        self.screen_size
    }

    /// The camera for a screen of the given size.
    pub fn new(screen_size: Vector2<u32>) -> (camera: Camera)
        ensures
            camera.screen_size() == screen_size,
    {
        Camera { screen_size }
    }

    pub fn get_screen_size(&self) -> (size: Vector2<u32>)
        ensures
            size == self.screen_size(),
    {
        self.screen_size
    }

    /// The numerators of the device coordinates of a pixel.
    pub fn project(&self, pixel: Vector2<i32>) -> (numerators: Vector2<i64>)
        ensures
            numerators.x == device_numerator(pixel.x as int, self.screen_size().x as int),
            numerators.y == device_numerator(pixel.y as int, self.screen_size().y as int),
    {
        Vector2 {
            x: 2 * (pixel.x as i64) - self.screen_size.x as i64,
            y: 2 * (pixel.y as i64) - self.screen_size.y as i64,
        }
    }
}

/// On an axis of `extent` pixels the first pixel has the device coordinate -1 and the
/// end of the axis has 1; the coordinate grows with the pixel, and it lies between -1
/// and 1 exactly for the pixels from 0 to `extent`.
pub proof fn lemma_device_range(pixel: int, other: int, extent: int)
    requires
        extent >= 0,
    ensures
        device_numerator(0, extent) == -extent,
        device_numerator(extent, extent) == extent,
        pixel < other ==> device_numerator(pixel, extent) < device_numerator(other, extent),
        -extent <= device_numerator(pixel, extent) <= extent <==> 0 <= pixel <= extent,
{
}

} // verus!
