use vstd::prelude::*;

use crate::instruction::Instruction;
use crate::instructions::init::Init;
use crate::util::{dec_u8_of, parse_u8};

verus! {

/// Builds an [`Init`] instruction from an argument vector.
pub struct InitBuilder {}

impl InitBuilder {
    pub fn new() -> (r: InitBuilder) {
        InitBuilder {}
    }

    /// Get the display name for the instruction.
    pub fn display_name() -> (r: String)
        ensures
            r@ == "init"@,
    {
        "init".to_owned()
    }

    /// Provide a brief description of the builder.
    pub fn help(&self) -> (r: String)
        ensures
            r@ == "[num_pixels] [pin] - initialize the LED strip"@,
    {
        "[num_pixels] [pin] - initialize the LED strip".to_owned()
    }

    /// Build an instruction from its arguments: the pixel count and the data
    /// pin, both decimal bytes. `None` when an argument is missing or does
    /// not parse.
    pub fn build_instruction(&self, args: Vec<String>) -> (r: Option<Init>)
        ensures
            match r {
                Some(inst) => args@.len() >= 2 && dec_u8_of(args@[0]@) is Some && dec_u8_of(
                    args@[1]@,
                ) is Some && inst.spec_message() == seq![
                    0u8,
                    dec_u8_of(args@[0]@)->0,
                    dec_u8_of(args@[1]@)->0,
                ],
                None => args@.len() < 2 || dec_u8_of(args@[0]@) is None || dec_u8_of(
                    args@[1]@,
                ) is None,
            },
    {
        if args.len() < 2 {
            return None;
        }
        let num_pixels = match parse_u8(args[0].as_str()) {
            Some(v) => v,
            None => {
                return None;
            },
        };
        let pin = match parse_u8(args[1].as_str()) {
            Some(v) => v,
            None => {
                return None;
            },
        };
        Some(Init::new(num_pixels, pin))
    }
}

} // verus!
