use vstd::prelude::*;
use crate::xlen::{Xlen, norm};
use crate::format::TOTAL_REGISTER_COUNT;
use crate::mmu::Mmu;

verus! {

/// One hart's architectural state: the register file (architectural
/// registers 0..32 followed by the reserved virtual scratch slots), the
/// program counter, the width mode (read-only during a run) and the memory
/// management unit.
pub struct Cpu {
    pub x: Vec<u64>,
    pub pc: u64,
    pub xlen: Xlen,
    pub mmu: Mmu,
}

/// The register file after writing `value` to `index`: register 0 is
/// hardwired to zero and never writable, and every written value is
/// normalized to the width mode.
pub open spec fn write_reg(xlen: Xlen, regs: Seq<u64>, index: u8, value: u64) -> Seq<u64> {
    if index == 0 {
        regs
    } else {
        regs.update(index as int, norm(xlen, value))
    }
}

impl Cpu {
    /// Well-formedness: full register file, register 0 zero, every register
    /// normalized to the width mode.
    pub open spec fn wf(self) -> bool {
        &&& self.x@.len() == TOTAL_REGISTER_COUNT
        &&& self.x@[0] == 0
        &&& forall|i: int|
            0 <= i < TOTAL_REGISTER_COUNT ==> #[trigger] self.x@[i] == norm(self.xlen, self.x@[i])
    }

    /// A fresh hart: all registers zero, program counter zero, empty memory.
    pub fn new(xlen: Xlen) -> (c: Cpu)
        ensures
            c.wf(),
            c.xlen == xlen,
            c.pc == 0,
            c.x@.len() == TOTAL_REGISTER_COUNT,
            forall|i: int| 0 <= i < TOTAL_REGISTER_COUNT ==> #[trigger] c.x@[i] == 0,
            c.mmu.mem() == Map::<u64, u8>::empty(),
    {
        let mut x: Vec<u64> = Vec::new();
        let mut i: usize = 0;
        while i < TOTAL_REGISTER_COUNT as usize
            invariant
                i == x@.len(),
                i <= TOTAL_REGISTER_COUNT,
                forall|j: int| 0 <= j < i ==> #[trigger] x@[j] == 0,
            decreases TOTAL_REGISTER_COUNT as usize - i,
        {
            x.push(0u64);
            i = i + 1;
        }
        proof {
            assert forall|v: u64| v == 0 implies v == norm(xlen, v) by {
                assert(0u64 & xlen.spec_mask() == 0) by (bit_vector);
            }
        }
        Cpu { x, pc: 0, xlen, mmu: Mmu::new() }
    }

    /// Read a register.
    pub fn read_register(&self, index: u8) -> (v: u64)
        requires
            self.wf(),
            index < TOTAL_REGISTER_COUNT,
        ensures
            v == self.x@[index as int],
            v == norm(self.xlen, v),
    {
        self.x[index as usize]
    }

    /// Write a register: writes to register 0 are discarded, all others are
    /// normalized to the width mode. Program counter, width mode and memory
    /// are untouched.
    pub fn write_register(&mut self, index: u8, value: u64)
        requires
            old(self).wf(),
            index < TOTAL_REGISTER_COUNT,
        ensures
            final(self).wf(),
            final(self).x@ == write_reg(old(self).xlen, old(self).x@, index, value),
            final(self).pc == old(self).pc,
            final(self).xlen == old(self).xlen,
            final(self).mmu == old(self).mmu,
    {
        if index != 0 {
            let m = self.xlen.mask();
            self.x[index as usize] = value & m;
            proof {
                let v = value;
                let mk = self.xlen.spec_mask();
                assert((v & mk) & mk == v & mk) by (bit_vector);
            }
        }
    }
}

} // verus!
