//! What one render call reads from start to end.

use vstd::prelude::*;

verus! {

/// The read-only settings of one render call, shared by every worker: the
/// camera, the bounce and sample counts, and the tile `[start_x, end_x)` by
/// `[start_y, end_y)` of pixels to compute.
pub struct RenderContext<C> {
    pub camera: C,
    pub max_depth: u32,
    pub samples: u32,
    pub start_x: u32,
    pub start_y: u32,
    pub end_x: u32,
    pub end_y: u32,
}

impl<C> RenderContext<C> {
    /// Bundles the settings of a render call; the tile must not be empty
    /// and at least one sample and one bounce are taken.
    pub fn new(
        camera: C,
        max_depth: u32,
        samples: u32,
        start_x: u32,
        start_y: u32,
        end_x: u32,
        end_y: u32,
    ) -> (r: RenderContext<C>)
        requires
            max_depth != 0,
            samples != 0,
            start_x != end_x,
            start_y != end_y,
        ensures
            r.camera == camera,
            r.max_depth == max_depth,
            r.samples == samples,
            r.start_x == start_x,
            r.start_y == start_y,
            r.end_x == end_x,
            r.end_y == end_y,
    {
        RenderContext { camera, max_depth, samples, start_x, start_y, end_x, end_y }
    }

    /// Pixel `(x, y)` lies in the tile.
    pub open spec fn in_tile(&self, x: int, y: int) -> bool {
        self.start_x <= x < self.end_x && self.start_y <= y < self.end_y
    }

    /// The tile is the whole `bounds.0` by `bounds.1` image.
    pub open spec fn covers(&self, bounds: (u32, u32)) -> bool {
        self.start_x == 0 && self.start_y == 0 && self.end_x == bounds.0 && self.end_y == bounds.1
    }
}

} // verus!
