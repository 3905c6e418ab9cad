use vstd::prelude::*;

use crate::util::{dec_u8_of, hex_bytes, parse_u8};

verus! {

/// Builds a [`crate::SetLeds`](crate::SetLeds) instruction interactively: the
/// offset comes from the argument vector, then one typed line per pixel adds
/// an RGB color to the buffer until a control word ends the session. The
/// decisions live here; the prompting loop around them is the caller's.
pub struct SetLedsBuilder {}

/// What one line typed at the color prompt asks for.
pub enum SetLedsLine {
    /// Abort the builder without sending anything.
    Exit,
    /// Print the per-line help.
    Help,
    /// Send a message with the current buffer contents.
    Done,
    /// Show the current buffer contents.
    Peek,
    /// Append this R,G,B triplet to the buffer.
    Color(Vec<u8>),
    /// Anything else: not a control word and not a three-byte hex color.
    Invalid,
}

/// Whether a line is one of the four control words.
pub open spec fn is_control_word(line: Seq<char>) -> bool {
    line == "exit"@ || line == "help"@ || line == "done"@ || line == "peek"@
}

impl SetLedsBuilder {
    pub fn new() -> (r: SetLedsBuilder) {
        SetLedsBuilder {}
    }

    /// Get the display name for the instruction.
    pub fn display_name() -> (r: String)
        ensures
            r@ == "set_leds"@,
    {
        "set_leds".to_owned()
    }

    /// Provide a brief description of the builder.
    pub fn help(&self) -> (r: String)
        ensures
            r@ == "[offset] - set the colors for a set of LEDs"@,
    {
        "[offset] - set the colors for a set of LEDs".to_owned()
    }

    /// Parse the offset argument, a decimal byte. `None` when it is missing
    /// or does not parse.
    pub fn parse_offset(&self, args: &Vec<String>) -> (r: Option<u8>)
        ensures
            match r {
                Some(v) => args@.len() >= 1 && dec_u8_of(args@[0]@) == Some(v),
                None => args@.len() == 0 || dec_u8_of(args@[0]@) is None,
            },
    {
        if args.len() == 0 {
            return None;
        }
        parse_u8(args[0].as_str())
    }

    /// Classify one line typed at the color prompt: a control word, or an
    /// HTML hex color code standing for exactly three bytes. A line that is
    /// not a control word must be ASCII of even length, as the hex decoder
    /// asks.
    pub fn classify_line(&self, line: &String) -> (r: SetLedsLine)
        requires
            !is_control_word(line@) ==> line@.len() % 2 == 0 && line.is_ascii(),
        ensures
            match r {
                SetLedsLine::Exit => line@ == "exit"@,
                SetLedsLine::Help => line@ == "help"@,
                SetLedsLine::Done => line@ == "done"@,
                SetLedsLine::Peek => line@ == "peek"@,
                SetLedsLine::Color(c) => !is_control_word(line@) && hex_bytes(line@) == Some(c@)
                    && c@.len() == 3,
                SetLedsLine::Invalid => !is_control_word(line@) && (hex_bytes(line@) is None
                    || hex_bytes(line@)->0.len() != 3),
            },
    {
        if line.eq(&"exit".to_owned()) {
            return SetLedsLine::Exit;
        }
        if line.eq(&"help".to_owned()) {
            return SetLedsLine::Help;
        }
        if line.eq(&"done".to_owned()) {
            return SetLedsLine::Done;
        }
        if line.eq(&"peek".to_owned()) {
            return SetLedsLine::Peek;
        }
        match crate::util::decode_hex(line.as_str()) {
            Ok(rgb) => {
                if rgb.len() == 3 {
                    SetLedsLine::Color(rgb)
                } else {
                    SetLedsLine::Invalid
                }
            },
            Err(_) => SetLedsLine::Invalid,
        }
    }
}

} // verus!
