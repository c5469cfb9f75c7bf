use vstd::prelude::*;

verus! {

/// A fault detected while loading or interpreting a program. The interpreted
/// bytecode is assumed well formed, so every variant marks either a corrupt
/// program or a misuse of the host interface; the driver must not keep
/// stepping after one is returned.
#[derive(Clone, Copy, Debug, PartialEq, Eq, Structural)]
pub enum Chip8Error {
    /// The instruction word matches none of the recognised encodings.
    UnknownOpcode,
    /// A return was executed with an empty call stack.
    StackUnderflow,
    /// A call was executed with no free call-stack slot.
    StackOverflow,
    /// A jump, call or return targeted an odd address.
    MisalignedAddress,
    /// A memory access or jump left the range its usage permits.
    InvalidMemoryRange,
    /// A memory access of zero bytes was requested.
    InvalidRangeSize,
    /// A glyph sprite was requested for a value above 0xF.
    InvalidGlyphIndex,
    /// A key-state test was requested for a key above 0xF.
    InvalidKey,
    /// Adding to the index register overflowed its sixteen bits.
    AddressOverflow,
    /// A program buffer of odd length was offered for loading.
    OddProgramSize,
}

} // verus!
