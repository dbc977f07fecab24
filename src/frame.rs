//! Where an image pixel sits on the camera's screen grid.
use vstd::prelude::*;

verus! {

/// The screen-grid position of image pixel `(x, y)`. The image's rows run
/// from the top down and the camera's screen coordinates from the bottom
/// up, so the row is counted back from `height`.
pub fn grid_position(x: u32, y: u32, height: u32) -> (r: (u32, u32))
    requires
        y <= height,
    ensures
        r == (x, (height - y) as u32),
{
    (x, height - y)
}

} // verus!
