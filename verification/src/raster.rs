//! Integer side of rasterization setup: the pixel bounding box of a triangle,
//! clamped to the framebuffer.

use vstd::prelude::*;

verus! {

/// An inclusive integer pixel rectangle. `min` may exceed `max` on an axis;
/// that denotes an empty box, and consumers must check for it before
/// iterating.
#[derive(Clone, Copy, Debug, PartialEq, Eq, Structural)]
pub struct BoundingBox {
    pub min_x: i32,
    pub min_y: i32,
    pub max_x: i32,
    pub max_y: i32,
}

/// The box that clamping the raw bounds to a `width` by `height` framebuffer
/// yields: minima at least 0, maxima at most the last pixel row or column.
pub open spec fn clamped_box(
    min_x: int,
    min_y: int,
    max_x: int,
    max_y: int,
    width: int,
    height: int,
) -> BoundingBox {
    BoundingBox {
        min_x: (if min_x > 0 { min_x } else { 0 }) as i32,
        min_y: (if min_y > 0 { min_y } else { 0 }) as i32,
        max_x: (if max_x < width - 1 { max_x } else { width - 1 }) as i32,
        max_y: (if max_y < height - 1 { max_y } else { height - 1 }) as i32,
    }
}

impl BoundingBox {
    /// Clamps the raw integer bounds of a triangle (componentwise floor of
    /// the minima, ceiling of the maxima, computed by the caller) to the
    /// framebuffer.
    pub fn find(min_x: i32, min_y: i32, max_x: i32, max_y: i32, width: i32, height: i32) -> (bb:
        BoundingBox)
        requires
            i32::MIN < width,
            i32::MIN < height,
        ensures
            bb == clamped_box(min_x as int, min_y as int, max_x as int, max_y as int, width as int, height as int),
    {
        BoundingBox {
            min_x: if min_x > 0 { min_x } else { 0 },
            min_y: if min_y > 0 { min_y } else { 0 },
            max_x: if max_x < width - 1 { max_x } else { width - 1 },
            max_y: if max_y < height - 1 { max_y } else { height - 1 },
        }
    }

    /// True iff the box covers no pixel; such a box must be skipped, not
    /// iterated.
    pub fn is_empty(&self) -> (empty: bool)
        ensures
            empty == (self.min_x > self.max_x || self.min_y > self.max_y),
    {
        self.min_x > self.max_x || self.min_y > self.max_y
    }
}

/// A triangle that lies entirely outside the framebuffer clamps to an empty
/// box: some axis ends with its minimum above its maximum.
pub proof fn lemma_offscreen_box_is_empty(
    min_x: int,
    min_y: int,
    max_x: int,
    max_y: int,
    width: int,
    height: int,
)
    requires
        1 <= width <= i32::MAX,
        1 <= height <= i32::MAX,
        i32::MIN <= min_x <= max_x <= i32::MAX,
        i32::MIN <= min_y <= max_y <= i32::MAX,
        max_x < 0 || min_x > width - 1 || max_y < 0 || min_y > height - 1,
    ensures
        ({
            let bb = clamped_box(min_x, min_y, max_x, max_y, width, height);
            bb.min_x > bb.max_x || bb.min_y > bb.max_y
        }),
{
}

} // verus!
