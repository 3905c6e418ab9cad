use vstd::prelude::*;

verus! {

/// A command the controller firmware understands.
///
/// Every variant exposes an 8-bit code, unique per variant and fixed by the
/// protocol contract with the firmware, and serializes to its message bytes
/// with that code byte prepended. The wire format carries no explicit length
/// field, so a variant with a variable-length tail must disambiguate its
/// length from its own fixed header fields; the firmware and this crate agree
/// on that out of band.
pub trait Instruction {
    /// The code byte of this instruction, as a mathematical value.
    spec fn spec_code(&self) -> u8;

    /// The message bytes this instruction serializes to, as a mathematical
    /// value: the code byte followed by the variant's payload.
    spec fn spec_message(&self) -> Seq<u8>;

    /// Get the instruction code used to represent this instruction.
    fn code(&self) -> (c: u8)
        ensures
            c == self.spec_code(),
    ;

    /// Convert this instruction into the binary data to be transmitted.
    /// Checksum and byte-stuffing are applied to this data afterwards.
    /// Protocol contract, owed by every variant: the message is never empty
    /// and leads with the instruction's code byte.
    fn to_message(&self) -> (message: Vec<u8>)
        ensures
            message@ == self.spec_message(),
            self.spec_message().len() >= 1,
            self.spec_message()[0] == self.spec_code(),
    ;
}

} // verus!
