//! The checksum stage: a 16-bit CRC over the message bytes, appended to the
//! message in big-endian order (high byte first) regardless of the CRC
//! algorithm's native bit ordering.

use vstd::prelude::*;

verus! {

/// The CRC-16/ARC checksum (polynomial 0xA001 bit-reversed, initial value
/// 0x0000) of a byte sequence. The algorithm itself lives in the `crc` crate;
/// this name stands for its result, a pure function of the bytes alone.
pub uninterp spec fn crc16_arc_of(bytes: Seq<u8>) -> u16;

/// The two checksum bytes appended to a message: its CRC-16/ARC in big-endian
/// order.
pub open spec fn checksum_bytes(message: Seq<u8>) -> Seq<u8> {
    seq![(crc16_arc_of(message) / 256) as u8, (crc16_arc_of(message) % 256) as u8]
}

/// Relies on `crc::Crc::<u16>::checksum` with the `crc::CRC_16_ARC` algorithm
/// parameters: the checksum depends on the input bytes alone.
#[verifier::external_body]
fn crc16_arc(bytes: &[u8]) -> (r: u16)
    ensures
        r == crc16_arc_of(bytes@),
{
    crc::Crc::<u16>::new(&crc::CRC_16_ARC).checksum(bytes)
}

/// Append the 16-bit checksum of `message` to it, high byte first: the packet
/// handed to the framing stage. The checksum covers exactly the bytes of
/// `message`, never itself.
pub fn append_checksum(message: Vec<u8>) -> (packet: Vec<u8>)
    ensures
        packet@ == message@ + checksum_bytes(message@),
        packet@.len() == message@.len() + 2,
        packet@.subrange(0, message@.len() as int) == message@,
{
    let ghost m = message@;
    let checksum = crc16_arc(message.as_slice());
    let mut packet = message;
    packet.push((checksum / 256) as u8);
    packet.push((checksum % 256) as u8);
    proof {
        assert(packet@ =~= m + checksum_bytes(m));
        assert(packet@.subrange(0, m.len() as int) =~= m);
    }
    packet
}

} // verus!
