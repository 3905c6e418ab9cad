//! Builders that turn typed-in arguments into instructions, one per
//! instruction variant, keyed by a display name.

pub mod init;
pub mod set_leds;
