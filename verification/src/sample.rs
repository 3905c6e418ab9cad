//! Edge-color sampling of a screenshot: the sampling data model, the sampler
//! capability, and a deterministic sampler for debugging without real image
//! data.

use vstd::prelude::*;

use crate::screenshot::{Bgra8, Screenshot};

verus! {

/// An edge sampling of the colors of a screenshot, specified as a circle of
/// pixels bordering the screen.
#[derive(Clone, Debug)]
pub struct Sample {
    /// Array of pixels, starting at top-left, going clockwise
    pub pixels: Vec<Bgra8>,
    pub width: usize,
    pub height: usize,
}

impl Sample {
    pub fn new(pixels: Vec<Bgra8>, width: usize, height: usize) -> (r: Self)
        ensures
            r.pixels == pixels,
            r.width == width,
            r.height == height,
    {
        Self { pixels, width, height }
    }
}

/// Computes an edge sampling from a screenshot.
pub trait Sampler {
    /// The inputs on which this sampler's arithmetic stays in range.
    open spec fn sample_req(&self) -> bool {
        true
    }

    fn sample(&mut self, screenshot: &Screenshot) -> Sample
        requires
            old(self).sample_req(),
    ;
}

/// A quarter of full channel brightness, the floor of the dimmest level the
/// debugging sampler emits.
pub const MIN_LEVEL: u8 = 63;

/// The shared channel level of the debugging sampler at ring position `i`,
/// for a ring of `len` pixels: a ramp from [`MIN_LEVEL`] upwards.
pub open spec fn dummy_level(i: int, len: int) -> u8
    recommends
        1 <= len <= 255,
        0 <= i < len,
{
    ((192int / len) * i + 63) as u8
}

/// The pixel the debugging sampler emits at ring position `i`: channel levels
/// ramp up with `i`, and one of blue, green, red is blanked in rotation.
pub open spec fn dummy_pixel(i: int, len: int) -> Bgra8 {
    Bgra8 {
        b: if i % 3 == 0 {
            0
        } else {
            dummy_level(i, len)
        },
        g: if i % 3 == 1 {
            0
        } else {
            dummy_level(i, len)
        },
        r: if i % 3 == 2 {
            0
        } else {
            dummy_level(i, len)
        },
        a: 100,
    }
}

/// Sampler that outputs either red, green, or blue values of increasing
/// intensity. Useful for basic debugging without the need for actual image
/// sampling.
pub struct DummySampler {
    width: usize,
    height: usize,
}

impl DummySampler {
    /// The width of the sampling ring, in sampled pixels.
    pub closed spec fn spec_width(&self) -> usize {
        self.width
    }

    /// The height of the sampling ring, in sampled pixels.
    pub closed spec fn spec_height(&self) -> usize {
        self.height
    }

    /// The number of pixels in the sampling ring.
    pub open spec fn ring_len(&self) -> int {
        2 * self.spec_width() + 2 * self.spec_height() - 4
    }

    pub fn new(width: usize, height: usize) -> (r: Self)
        ensures
            r.spec_width() == width,
            r.spec_height() == height,
    {
        Self { width, height }
    }
}

impl Sampler for DummySampler {
    /// The ring must hold between 1 and 255 pixels, so that the level ramp
    /// stays within a byte.
    open spec fn sample_req(&self) -> bool {
        1 <= self.ring_len() <= 255
    }

    fn sample(&mut self, screenshot: &Screenshot) -> (r: Sample)
        ensures
            *final(self) == *old(self),
            r.width == old(self).spec_width(),
            r.height == old(self).spec_height(),
            r.pixels@.len() == old(self).ring_len(),
            forall|i: int|
                0 <= i < old(self).ring_len() ==> r.pixels@[i] == dummy_pixel(
                    i,
                    old(self).ring_len(),
                ),
    {
        let length = self.width * 2 + self.height * 2 - 4;
        let inc = (u8::MAX - MIN_LEVEL) / (length as u8);
        proof {
            assert(inc == 192int / (length as int));
        }
        let mut pixels: Vec<Bgra8> = Vec::new();
        let mut i: usize = 0;
        while i < length
            invariant
                1 <= length <= 255,
                length == self.ring_len(),
                inc == 192int / (length as int),
                i <= length,
                pixels@.len() == i,
                forall|j: int| 0 <= j < i ==> pixels@[j] == dummy_pixel(j, length as int),
            decreases length - i,
        {
            proof {
                let q = 192int / (length as int);
                vstd::arithmetic::div_mod::lemma_fundamental_div_mod(192int, length as int);
                assert(q * (length as int) <= 192);
                assert(q * (i as int) <= q * (length as int) - q) by (nonlinear_arith)
                    requires
                        0 <= q,
                        0 <= i < length,
                ;
            }
            let level = inc * (i as u8) + MIN_LEVEL;
            let px = Bgra8 {
                b: if i % 3 == 0 {
                    0
                } else {
                    level
                },
                g: if i % 3 == 1 {
                    0
                } else {
                    level
                },
                r: if i % 3 == 2 {
                    0
                } else {
                    level
                },
                a: 100,
            };
            pixels.push(px);
            i = i + 1;
        }
        Sample::new(pixels, self.width, self.height)
    }
}

} // verus!
