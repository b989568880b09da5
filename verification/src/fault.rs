use vstd::prelude::*;

verus! {

/// Natural width of one primitive memory access.
#[derive(Clone, Copy, PartialEq, Eq, Structural, Debug)]
pub enum MemWidth {
    Byte,
    Half,
    Word,
    Double,
}

impl MemWidth {
    /// Number of bytes moved by an access of this width.
    pub open spec fn spec_bytes(self) -> u64 {
        match self {
            MemWidth::Byte => 1u64,
            MemWidth::Half => 2u64,
            MemWidth::Word => 4u64,
            MemWidth::Double => 8u64,
        }
    }

    pub fn bytes(self) -> (r: u64)
        ensures
            r == self.spec_bytes(),
    {
        match self {
            MemWidth::Byte => 1u64,
            MemWidth::Half => 2u64,
            MemWidth::Word => 4u64,
            MemWidth::Double => 8u64,
        }
    }
}

/// A typed fault, surfaced to the run's caller rather than aborting, so an
/// embedding emulator can report the failing instruction and stop cleanly
/// with the trace produced so far intact.
#[derive(Clone, Copy, PartialEq, Eq, Structural, Debug)]
pub enum Fault {
    /// No catalog entry matches the encoded word.
    IllegalInstruction { address: u64, word: u32 },
    /// A macro-instruction's own architectural alignment precondition was
    /// violated; raised by the first step of an expansion, before any
    /// state-modifying step runs. `address` is the instruction's program
    /// address, `target` the offending effective address.
    ArchitecturalMisalignment { address: u64, target: u64 },
    /// A primitive load or store was not naturally aligned to its width;
    /// a distinct, lower-level condition than the architectural fault.
    MmuMisalignment { target: u64, width: MemWidth },
    /// A register index outside the supported register file.
    UnsupportedRegister { index: u8 },
}

} // verus!
