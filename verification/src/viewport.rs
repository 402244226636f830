//! The raster of an image and where its pixels sit on the image plane.
//!
//! A camera looks through the centre of a `width` by `height` raster whose
//! pixels are one unit apart. Pixel `(0, 0)` is the top-left one, `x` grows to
//! the right and `y` grows downwards. A ray is cast through the centre of a
//! pixel, which lies a whole number of half units from the centre of the
//! raster: that number is what this module computes, exactly and in integers.
//! Halving it gives the offset `x - width / 2 + 0.5` to the right and
//! `height / 2 - y - 0.5` upwards.

use vstd::prelude::*;

verus! {

/// The size of a raster in pixels.
#[derive(Clone, Copy, Debug, PartialEq, Eq, Structural)]
pub struct Viewport {
    pub width: u32,
    pub height: u32,
}

/// Half units from the centre of a row of `width` pixels to the centre of
/// pixel `x`, counted to the right.
pub open spec fn halves_right(width: u32, x: u32) -> int {
    2 * x - width + 1
}

/// Half units from the centre of a column of `height` pixels to the centre of
/// pixel `y`, counted upwards.
pub open spec fn halves_up(height: u32, y: u32) -> int {
    height - 2 * y - 1
}

impl Viewport {
    pub fn new(width: u32, height: u32) -> (res: Viewport)
        ensures
            res.width == width,
            res.height == height,
    {
        Viewport { width, height }
    }

    /// Whether `(x, y)` is a pixel of the raster.
    pub fn contains(&self, x: u32, y: u32) -> (res: bool)
        ensures
            res == (x < self.width && y < self.height),
    {
        x < self.width && y < self.height
    }

    /// The number of pixels of the raster.
    pub fn pixel_count(&self) -> (res: u64)
        ensures
            res == self.width * self.height,
    {
        assert(self.width * self.height <= 0xffff_ffff * 0xffff_ffff) by (nonlinear_arith)
            requires
                self.width <= 0xffff_ffff,
                self.height <= 0xffff_ffff,
        ;
        (self.width as u64) * (self.height as u64)
    }

    /// How far to the right of the raster's centre the centre of column `x`
    /// lies, in half units. It is not asked that `x` be a column of the raster.
    pub fn right_halves(&self, x: u32) -> (res: i64)
        ensures
            res == halves_right(self.width, x),
    {
        2 * (x as i64) - (self.width as i64) + 1
    }

    /// How far above the raster's centre the centre of row `y` lies, in half
    /// units. It is not asked that `y` be a row of the raster.
    pub fn up_halves(&self, y: u32) -> (res: i64)
        ensures
            res == halves_up(self.height, y),
    {
        (self.height as i64) - 2 * (y as i64) - 1
    }
}

/// The pixel centres lie mirrored about the centre of the raster, none of them
/// on it: the last column is as far to the right as the first is to the left,
/// the last row as far down as the first is up, and every offset is an odd
/// number of half units that stays within the raster.
pub proof fn lemma_centres_are_mirrored(v: Viewport, x: u32, y: u32)
    requires
        x < v.width,
        y < v.height,
    ensures
        halves_right(v.width, (v.width - 1 - x) as u32) == -halves_right(v.width, x),
        halves_up(v.height, (v.height - 1 - y) as u32) == -halves_up(v.height, y),
        -(v.width as int) < halves_right(v.width, x) < v.width,
        -(v.height as int) < halves_up(v.height, y) < v.height,
        (halves_right(v.width, x) + v.width) % 2 == 1,
        (halves_up(v.height, y) + v.height) % 2 == 1,
{
}

/// Going right increases the offset to the right, and going down decreases the
/// offset upwards, each by one unit per pixel.
pub proof fn lemma_one_unit_per_pixel(v: Viewport, x: u32, y: u32)
    requires
        x < u32::MAX,
        y < u32::MAX,
    ensures
        halves_right(v.width, (x + 1) as u32) == halves_right(v.width, x) + 2,
        halves_up(v.height, (y + 1) as u32) == halves_up(v.height, y) - 2,
{
}

} // verus!
