//! The screenshot data model: a full frame of pixels as the capture device
//! hands them out. Capturing itself is a platform concern and happens outside
//! this crate; the samplers here only read the captured values.

use vstd::prelude::*;

verus! {

/// One pixel in blue, green, red, alpha channel order.
#[derive(Clone, Copy, Debug, PartialEq, Eq, Structural)]
pub struct Bgra8 {
    pub b: u8,
    pub g: u8,
    pub r: u8,
    pub a: u8,
}

/// A captured frame: `width * height` pixels in row-major order.
pub struct Screenshot {
    pub pixels: Vec<Bgra8>,
    pub width: usize,
    pub height: usize,
}

impl Screenshot {
    pub fn new(pixels: Vec<Bgra8>, width: usize, height: usize) -> (r: Screenshot)
        ensures
            r.pixels == pixels,
            r.width == width,
            r.height == height,
    {
        Screenshot { pixels, width, height }
    }
}

} // verus!
