//! Wire-protocol encoder for an addressable-LED strip controller driven over
//! a serial link.
//!
//! An [`Instruction`] serializes to message bytes; [`build_packet`] appends a
//! 16-bit checksum, byte-stuffs the result so it contains no zero byte
//! ([`cobs`]), and terminates the frame with a single `0x00` delimiter. The
//! frame is self-delimiting: written verbatim to the transport, the receiver
//! finds its end by scanning for the next zero byte, with no length field.

use vstd::prelude::*;

pub mod avg_rec;
pub mod checksum;
pub mod cobs;
mod instruction;
mod instructions;
pub mod inst_builders;
pub mod ppm;
pub mod sample;
pub mod screenshot;
pub mod util;

pub use crate::inst_builders::init::InitBuilder;
pub use crate::inst_builders::set_leds::{SetLedsBuilder, SetLedsLine};
pub use crate::avg_rec::{AvgRectangleSampler, Region, RegionIter};
pub use crate::instruction::Instruction;
pub use crate::sample::{DummySampler, Sample, Sampler};
pub use crate::screenshot::{Bgra8, Screenshot};
pub use crate::instructions::init::Init;
pub use crate::instructions::set_leds::SetLeds;

use crate::checksum::{append_checksum, checksum_bytes, crc16_arc_of};
use crate::cobs::{cobs_decode, cobs_encode, lemma_cobs_encode_no_zero, lemma_cobs_round_trip};

verus! {

/// The frame transmitted for a message: the byte-stuffed packet (the message
/// followed by its two checksum bytes) and the single zero terminator.
pub open spec fn spec_frame(message: Seq<u8>) -> Seq<u8> {
    cobs_encode(message + checksum_bytes(message)) + seq![0u8]
}

/// Build the ready-to-transmit frame for an instruction: serialize it to its
/// message bytes, append the 16-bit checksum big-endian, byte-stuff the
/// packet, and terminate with a single zero byte. The zero terminator is the
/// only zero byte anywhere in the frame.
pub fn build_packet(instruction: Box<dyn Instruction>) -> (frame: Vec<u8>)
    ensures
        frame@ == spec_frame(instruction.spec_message()),
        frame@.len() >= 2,
        frame@[frame@.len() - 1] == 0,
        forall|k: int| 0 <= k < frame@.len() - 1 ==> frame@[k] != 0,
{
    let message = instruction.to_message();
    let packet = append_checksum(message);
    let mut frame = cobs::encode(packet.as_slice());
    proof {
        lemma_cobs_encode_no_zero(packet@);
    }
    frame.push(0);
    proof {
        assert(frame@ =~= spec_frame(instruction.spec_message()));
    }
    frame
}

/// Law: a frame decodes back to its packet. Stripping the zero terminator and
/// undoing the byte stuffing yields exactly the original message followed by
/// its two checksum bytes, and those two bytes are the big-endian CRC-16 of
/// the message alone, so a receiver that recomputes the checksum over the
/// recovered message always finds it matching the two stripped bytes.
pub proof fn lemma_frame_decodes(message: Seq<u8>)
    ensures
        spec_frame(message).len() >= 2,
        spec_frame(message)[spec_frame(message).len() - 1] == 0,
        cobs_decode(spec_frame(message).take(spec_frame(message).len() - 1)) == message
            + checksum_bytes(message),
        (message + checksum_bytes(message)).take(message.len() as int) == message,
        (message + checksum_bytes(message)).skip(message.len() as int) == checksum_bytes(message),
        checksum_bytes(message)[0] * 256 + checksum_bytes(message)[1] == crc16_arc_of(message),
{
    let packet = message + checksum_bytes(message);
    lemma_cobs_round_trip(packet);
    assert(spec_frame(message).take(spec_frame(message).len() - 1) =~= cobs_encode(packet));
    assert(packet.take(message.len() as int) =~= message);
    assert(packet.skip(message.len() as int) =~= checksum_bytes(message));
}

} // verus!
