use vstd::prelude::*;

verus! {

/// Integer register width mode: selects which arithmetic width, masks and
/// expansion variants apply. Fixed for the whole of one run.
#[derive(Clone, Copy, PartialEq, Eq, Structural, Debug)]
pub enum Xlen {
    Bit32,
    Bit64,
}

impl Xlen {
    /// The register bits that are significant in this width mode.
    pub open spec fn spec_mask(self) -> u64 {
        match self {
            Xlen::Bit32 => 0xFFFF_FFFFu64,
            Xlen::Bit64 => 0xFFFF_FFFF_FFFF_FFFFu64,
        }
    }

    /// The mask applied to a shift amount in this width mode.
    pub open spec fn spec_shift_mask(self) -> u64 {
        match self {
            Xlen::Bit32 => 31u64,
            Xlen::Bit64 => 63u64,
        }
    }

    pub fn mask(self) -> (r: u64)
        ensures
            r == self.spec_mask(),
    {
        match self {
            Xlen::Bit32 => 0xFFFF_FFFFu64,
            Xlen::Bit64 => 0xFFFF_FFFF_FFFF_FFFFu64,
        }
    }

    pub fn shift_mask(self) -> (r: u64)
        ensures
            r == self.spec_shift_mask(),
    {
        match self {
            Xlen::Bit32 => 31u64,
            Xlen::Bit64 => 63u64,
        }
    }
}

/// A register value normalized to the width mode: bits above the mode's
/// width are zero.
pub open spec fn norm(xlen: Xlen, v: u64) -> u64 {
    v & xlen.spec_mask()
}

/// Addition modulo 2^64, the wrap-around arithmetic of the register file.
pub open spec fn wrap_add(a: u64, b: u64) -> u64 {
    ((a + b) % 0x1_0000_0000_0000_0000) as u64
}

/// The executable wrapping addition agrees with `wrap_add`.
pub proof fn lemma_wrap_add_equiv(a: u64, b: u64)
    by (bit_vector)
    ensures
        wrap_add(a, b) == vstd::wrapping::u64_specs::wrapping_add(a, b),
{
}

} // verus!
