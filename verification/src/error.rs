use vstd::prelude::*;

verus! {

/// Every failure the interpreter core reports.
///
/// Decode failures and over-long ROMs are the two errors a well-formed
/// host can provoke; the remaining variants are fatal conditions that
/// only a corrupt or buggy ROM can reach, reported rather than masked
/// by silent wraparound.
#[derive(Clone, Copy, Debug, PartialEq, Eq, Structural)]
pub enum Chip8Error {
    /// The 16-bit instruction word matches no known opcode pattern.
    UnknownOpcode(u16),
    /// The ROM does not fit in the 3584 bytes of program space.
    RomTooLarge,
    /// A memory or key access fell outside the addressable range, or
    /// index-register arithmetic overflowed its 16-bit capacity.
    AddressOutOfRange,
    /// A subroutine call found all 16 stack slots already in use.
    StackOverflow,
    /// A return was executed with no call outstanding.
    StackUnderflow,
}

} // verus!
