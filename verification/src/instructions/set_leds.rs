use vstd::prelude::*;

use crate::instruction::Instruction;

verus! {

/// Set the colors of `num_pixels` pixels starting at pixel `offset`.
///
/// Message layout: `[code, offset, num_pixels, colors...]` with code `1`.
/// Each pixel is an R,G,B triplet, so a well-formed color list holds
/// `3 * num_pixels` bytes; the encoder does not validate that invariant and
/// emits the bytes as given, byte for byte. The color list is not length
/// prefixed: the receiver infers the payload length from `num_pixels`.
pub struct SetLeds {
    offset: u8,
    num_pixels: u8,
    pixel_colors: Vec<u8>,
}

impl SetLeds {
    pub fn new(offset: u8, num_pixels: u8, pixel_colors: Vec<u8>) -> (r: Self)
        ensures
            r.spec_code() == 1u8,
            r.spec_message() == seq![1u8, offset, num_pixels] + pixel_colors@,
    {
        Self { offset, num_pixels, pixel_colors }
    }
}

impl Instruction for SetLeds {
    closed spec fn spec_code(&self) -> u8 {
        1u8
    }

    closed spec fn spec_message(&self) -> Seq<u8> {
        seq![1u8, self.offset, self.num_pixels] + self.pixel_colors@
    }

    fn code(&self) -> u8 {
        1u8
    }

    fn to_message(&self) -> (message: Vec<u8>) {
        let mut message: Vec<u8> = Vec::new();
        message.push(self.code());
        message.push(self.offset);
        message.push(self.num_pixels);
        message.extend_from_slice(self.pixel_colors.as_slice());
        assert(message@ =~= self.spec_message());
        message
    }
}

} // verus!
