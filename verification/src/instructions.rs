//! The closed set of instruction variants.

pub mod init;
pub mod set_leds;
