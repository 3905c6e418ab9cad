use vstd::prelude::*;

use crate::instruction::Instruction;

verus! {

/// Initialize the LED strip: `num_pixels` pixels driven from data pin `pin`.
///
/// Message layout: `[code, num_pixels, pin]` with code `0`.
pub struct Init {
    num_pixels: u8,
    pin: u8,
}

impl Init {
    pub fn new(num_pixels: u8, pin: u8) -> (r: Self)
        ensures
            r.spec_code() == 0u8,
            r.spec_message() == seq![0u8, num_pixels, pin],
    {
        Self { num_pixels, pin }
    }
}

impl Instruction for Init {
    closed spec fn spec_code(&self) -> u8 {
        0u8
    }

    closed spec fn spec_message(&self) -> Seq<u8> {
        seq![0u8, self.num_pixels, self.pin]
    }

    fn code(&self) -> u8 {
        0u8
    }

    fn to_message(&self) -> (message: Vec<u8>) {
        let mut message: Vec<u8> = Vec::new();
        message.push(self.code());
        message.push(self.num_pixels);
        message.push(self.pin);
        assert(message@ =~= self.spec_message());
        message
    }
}

} // verus!
