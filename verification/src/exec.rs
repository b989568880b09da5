use vstd::prelude::*;
use crate::cpu::Cpu;
use crate::fault::Fault;
use crate::format::TOTAL_REGISTER_COUNT;
use crate::instr::{
    ADDI, ANDI, Instruction, LD, LHU, SLL, SLLI, SRLI, VirtualAssertHalfwordAlignment, VirtualLW,
    XORI,
};
use crate::mmu::RamAccess;
use crate::step::{RegisterWrite, state_of, step_spec};
use crate::xlen::lemma_wrap_add_equiv;

verus! {

/// Contract of one directly executed step: the hart moves to exactly the
/// state of the reference step semantics, the program counter and width mode
/// are untouched, and the access and write records are the step's own.
pub open spec fn exec_post(
    i: Instruction,
    pre: Cpu,
    post: Cpu,
    acc: Option<RamAccess>,
    r: Result<Option<RegisterWrite>, Fault>,
) -> bool {
    let out = step_spec(i, state_of(pre));
    &&& post.wf()
    &&& post.pc == pre.pc
    &&& post.xlen == pre.xlen
    &&& state_of(post) == out.state
    &&& acc == out.access
    &&& (match r {
        Ok(w) => out.fault is None && w == out.write,
        Err(f) => out.fault == Some(f),
    })
}

/// Contract of the record-free execution path.
pub open spec fn execute_post(i: Instruction, pre: Cpu, post: Cpu, r: Result<(), Fault>) -> bool {
    let out = step_spec(i, state_of(pre));
    &&& post.wf()
    &&& post.pc == pre.pc
    &&& post.xlen == pre.xlen
    &&& state_of(post) == out.state
    &&& (match r {
        Ok(u) => out.fault is None,
        Err(f) => out.fault == Some(f),
    })
}

impl ADDI {
    /// rd := rs1 + imm, wrapping, normalized to the width mode.
    pub fn exec(&self, cpu: &mut Cpu) -> (r: Result<Option<RegisterWrite>, Fault>)
        requires
            old(cpu).wf(),
        ensures
            exec_post(Instruction::Addi(*self), *old(cpu), *final(cpu), None, r),
    {
        let ops = self.operands;
        if ops.rd >= TOTAL_REGISTER_COUNT {
            return Err(Fault::UnsupportedRegister { index: ops.rd });
        }
        if ops.rs1 >= TOTAL_REGISTER_COUNT {
            return Err(Fault::UnsupportedRegister { index: ops.rs1 });
        }
        let a = cpu.read_register(ops.rs1);
        let v = a.wrapping_add(ops.imm);
        proof {
            lemma_wrap_add_equiv(a, ops.imm);
        }
        cpu.write_register(ops.rd, v);
        let w = if ops.rd == 0 {
            None
        } else {
            Some(RegisterWrite { register: ops.rd, value: cpu.read_register(ops.rd) })
        };
        proof {
            assert(state_of(*cpu) =~= step_spec(
                Instruction::Addi(*self),
                state_of(*old(cpu)),
            ).state);
        }
        Ok(w)
    }
}

impl ANDI {
    /// rd := rs1 & imm.
    pub fn exec(&self, cpu: &mut Cpu) -> (r: Result<Option<RegisterWrite>, Fault>)
        requires
            old(cpu).wf(),
        ensures
            exec_post(Instruction::Andi(*self), *old(cpu), *final(cpu), None, r),
    {
        let ops = self.operands;
        if ops.rd >= TOTAL_REGISTER_COUNT {
            return Err(Fault::UnsupportedRegister { index: ops.rd });
        }
        if ops.rs1 >= TOTAL_REGISTER_COUNT {
            return Err(Fault::UnsupportedRegister { index: ops.rs1 });
        }
        let a = cpu.read_register(ops.rs1);
        let v = a & ops.imm;
        cpu.write_register(ops.rd, v);
        let w = if ops.rd == 0 {
            None
        } else {
            Some(RegisterWrite { register: ops.rd, value: cpu.read_register(ops.rd) })
        };
        proof {
            assert(state_of(*cpu) =~= step_spec(
                Instruction::Andi(*self),
                state_of(*old(cpu)),
            ).state);
        }
        Ok(w)
    }
}

impl XORI {
    /// rd := rs1 ^ imm.
    pub fn exec(&self, cpu: &mut Cpu) -> (r: Result<Option<RegisterWrite>, Fault>)
        requires
            old(cpu).wf(),
        ensures
            exec_post(Instruction::Xori(*self), *old(cpu), *final(cpu), None, r),
    {
        let ops = self.operands;
        if ops.rd >= TOTAL_REGISTER_COUNT {
            return Err(Fault::UnsupportedRegister { index: ops.rd });
        }
        if ops.rs1 >= TOTAL_REGISTER_COUNT {
            return Err(Fault::UnsupportedRegister { index: ops.rs1 });
        }
        let a = cpu.read_register(ops.rs1);
        let v = a ^ ops.imm;
        cpu.write_register(ops.rd, v);
        let w = if ops.rd == 0 {
            None
        } else {
            Some(RegisterWrite { register: ops.rd, value: cpu.read_register(ops.rd) })
        };
        proof {
            assert(state_of(*cpu) =~= step_spec(
                Instruction::Xori(*self),
                state_of(*old(cpu)),
            ).state);
        }
        Ok(w)
    }
}

impl SLLI {
    /// rd := rs1 << (imm & shift mask).
    pub fn exec(&self, cpu: &mut Cpu) -> (r: Result<Option<RegisterWrite>, Fault>)
        requires
            old(cpu).wf(),
        ensures
            exec_post(Instruction::Slli(*self), *old(cpu), *final(cpu), None, r),
    {
        let ops = self.operands;
        if ops.rd >= TOTAL_REGISTER_COUNT {
            return Err(Fault::UnsupportedRegister { index: ops.rd });
        }
        if ops.rs1 >= TOTAL_REGISTER_COUNT {
            return Err(Fault::UnsupportedRegister { index: ops.rs1 });
        }
        let a = cpu.read_register(ops.rs1);
        let m = cpu.xlen.shift_mask();
        let sh = ops.imm & m;
        proof {
            let imm = ops.imm;
            assert(imm & m <= m) by (bit_vector);
        }
        let v = a << sh;
        cpu.write_register(ops.rd, v);
        let w = if ops.rd == 0 {
            None
        } else {
            Some(RegisterWrite { register: ops.rd, value: cpu.read_register(ops.rd) })
        };
        proof {
            assert(state_of(*cpu) =~= step_spec(
                Instruction::Slli(*self),
                state_of(*old(cpu)),
            ).state);
        }
        Ok(w)
    }
}

impl SRLI {
    /// rd := rs1 >> (imm & shift mask), logical.
    pub fn exec(&self, cpu: &mut Cpu) -> (r: Result<Option<RegisterWrite>, Fault>)
        requires
            old(cpu).wf(),
        ensures
            exec_post(Instruction::Srli(*self), *old(cpu), *final(cpu), None, r),
    {
        let ops = self.operands;
        if ops.rd >= TOTAL_REGISTER_COUNT {
            return Err(Fault::UnsupportedRegister { index: ops.rd });
        }
        if ops.rs1 >= TOTAL_REGISTER_COUNT {
            return Err(Fault::UnsupportedRegister { index: ops.rs1 });
        }
        let a = cpu.read_register(ops.rs1);
        let m = cpu.xlen.shift_mask();
        let sh = ops.imm & m;
        proof {
            let imm = ops.imm;
            assert(imm & m <= m) by (bit_vector);
        }
        let v = a >> sh;
        cpu.write_register(ops.rd, v);
        let w = if ops.rd == 0 {
            None
        } else {
            Some(RegisterWrite { register: ops.rd, value: cpu.read_register(ops.rd) })
        };
        proof {
            assert(state_of(*cpu) =~= step_spec(
                Instruction::Srli(*self),
                state_of(*old(cpu)),
            ).state);
        }
        Ok(w)
    }
}

impl SLL {
    /// rd := rs1 << (rs2 & shift mask).
    pub fn exec(&self, cpu: &mut Cpu) -> (r: Result<Option<RegisterWrite>, Fault>)
        requires
            old(cpu).wf(),
        ensures
            exec_post(Instruction::Sll(*self), *old(cpu), *final(cpu), None, r),
    {
        let ops = self.operands;
        if ops.rd >= TOTAL_REGISTER_COUNT {
            return Err(Fault::UnsupportedRegister { index: ops.rd });
        }
        if ops.rs1 >= TOTAL_REGISTER_COUNT {
            return Err(Fault::UnsupportedRegister { index: ops.rs1 });
        }
        if ops.rs2 >= TOTAL_REGISTER_COUNT {
            return Err(Fault::UnsupportedRegister { index: ops.rs2 });
        }
        let a = cpu.read_register(ops.rs1);
        let b = cpu.read_register(ops.rs2);
        let m = cpu.xlen.shift_mask();
        let sh = b & m;
        proof {
            assert(b & m <= m) by (bit_vector);
        }
        let v = a << sh;
        cpu.write_register(ops.rd, v);
        let w = if ops.rd == 0 {
            None
        } else {
            Some(RegisterWrite { register: ops.rd, value: cpu.read_register(ops.rd) })
        };
        proof {
            assert(state_of(*cpu) =~= step_spec(Instruction::Sll(*self), state_of(*old(cpu))).state);
        }
        Ok(w)
    }
}

impl VirtualLW {
    /// rd := zero-extended aligned word at rs1 + imm; faults on a word
    /// boundary violation.
    pub fn exec(&self, cpu: &mut Cpu, ram_access: &mut Option<RamAccess>) -> (r: Result<
        Option<RegisterWrite>,
        Fault,
    >)
        requires
            old(cpu).wf(),
        ensures
            exec_post(Instruction::VirtualLw(*self), *old(cpu), *final(cpu), *final(ram_access), r),
    {
        *ram_access = None;
        let ops = self.operands;
        if ops.rd >= TOTAL_REGISTER_COUNT {
            return Err(Fault::UnsupportedRegister { index: ops.rd });
        }
        if ops.rs1 >= TOTAL_REGISTER_COUNT {
            return Err(Fault::UnsupportedRegister { index: ops.rs1 });
        }
        let base = cpu.read_register(ops.rs1);
        let sum = base.wrapping_add(ops.imm);
        proof {
            lemma_wrap_add_equiv(base, ops.imm);
        }
        let ea = sum & cpu.xlen.mask();
        match cpu.mmu.load_word(ea) {
            Ok((v, acc)) => {
                *ram_access = Some(acc);
                cpu.write_register(ops.rd, v as u64);
                let w = if ops.rd == 0 {
                    None
                } else {
                    Some(RegisterWrite { register: ops.rd, value: cpu.read_register(ops.rd) })
                };
                proof {
                    assert(state_of(*cpu) =~= step_spec(
                        Instruction::VirtualLw(*self),
                        state_of(*old(cpu)),
                    ).state);
                }
                Ok(w)
            },
            Err(f) => Err(f),
        }
    }
}

impl LD {
    /// rd := aligned double word at rs1 + imm; faults on a double-word
    /// boundary violation.
    pub fn exec(&self, cpu: &mut Cpu, ram_access: &mut Option<RamAccess>) -> (r: Result<
        Option<RegisterWrite>,
        Fault,
    >)
        requires
            old(cpu).wf(),
        ensures
            exec_post(Instruction::Ld(*self), *old(cpu), *final(cpu), *final(ram_access), r),
    {
        *ram_access = None;
        let ops = self.operands;
        if ops.rd >= TOTAL_REGISTER_COUNT {
            return Err(Fault::UnsupportedRegister { index: ops.rd });
        }
        if ops.rs1 >= TOTAL_REGISTER_COUNT {
            return Err(Fault::UnsupportedRegister { index: ops.rs1 });
        }
        let base = cpu.read_register(ops.rs1);
        let sum = base.wrapping_add(ops.imm);
        proof {
            lemma_wrap_add_equiv(base, ops.imm);
        }
        let ea = sum & cpu.xlen.mask();
        match cpu.mmu.load_doubleword(ea) {
            Ok((v, acc)) => {
                *ram_access = Some(acc);
                cpu.write_register(ops.rd, v);
                let w = if ops.rd == 0 {
                    None
                } else {
                    Some(RegisterWrite { register: ops.rd, value: cpu.read_register(ops.rd) })
                };
                proof {
                    assert(state_of(*cpu) =~= step_spec(
                        Instruction::Ld(*self),
                        state_of(*old(cpu)),
                    ).state);
                }
                Ok(w)
            },
            Err(f) => Err(f),
        }
    }
}

impl LHU {
    /// Direct reference semantics of the half-word load: rd := zero-extended
    /// half-word at rs1 + imm. At the MMU's primitive level this faults
    /// unless the address is half-word aligned. The tracing path instead
    /// expands the instruction into its virtual sequence.
    pub fn exec(&self, cpu: &mut Cpu, ram_access: &mut Option<RamAccess>) -> (r: Result<
        Option<RegisterWrite>,
        Fault,
    >)
        requires
            old(cpu).wf(),
        ensures
            exec_post(Instruction::Lhu(*self), *old(cpu), *final(cpu), *final(ram_access), r),
    {
        *ram_access = None;
        let ops = self.operands;
        if ops.rd >= TOTAL_REGISTER_COUNT {
            return Err(Fault::UnsupportedRegister { index: ops.rd });
        }
        if ops.rs1 >= TOTAL_REGISTER_COUNT {
            return Err(Fault::UnsupportedRegister { index: ops.rs1 });
        }
        let base = cpu.read_register(ops.rs1);
        let sum = base.wrapping_add(ops.imm);
        proof {
            lemma_wrap_add_equiv(base, ops.imm);
        }
        let ea = sum & cpu.xlen.mask();
        match cpu.mmu.load_halfword(ea) {
            Ok((v, acc)) => {
                *ram_access = Some(acc);
                cpu.write_register(ops.rd, v as u64);
                let w = if ops.rd == 0 {
                    None
                } else {
                    Some(RegisterWrite { register: ops.rd, value: cpu.read_register(ops.rd) })
                };
                proof {
                    assert(state_of(*cpu) =~= step_spec(
                        Instruction::Lhu(*self),
                        state_of(*old(cpu)),
                    ).state);
                }
                Ok(w)
            },
            Err(f) => Err(f),
        }
    }
}

impl VirtualAssertHalfwordAlignment {
    /// The architectural precondition check of a half-word access: faults iff
    /// the effective address is odd; writes nothing either way.
    pub fn exec(&self, cpu: &mut Cpu) -> (r: Result<Option<RegisterWrite>, Fault>)
        requires
            old(cpu).wf(),
        ensures
            exec_post(
                Instruction::VirtualAssertHalfwordAlign(*self),
                *old(cpu),
                *final(cpu),
                None,
                r,
            ),
    {
        let ops = self.operands;
        if ops.rs1 >= TOTAL_REGISTER_COUNT {
            return Err(Fault::UnsupportedRegister { index: ops.rs1 });
        }
        let base = cpu.read_register(ops.rs1);
        let sum = base.wrapping_add(ops.imm);
        proof {
            lemma_wrap_add_equiv(base, ops.imm);
        }
        let ea = sum & cpu.xlen.mask();
        if ea % 2 != 0 {
            return Err(Fault::ArchitecturalMisalignment { address: self.address, target: ea });
        }
        Ok(None)
    }
}

impl Instruction {
    /// Execute one instruction as a single primitive step, yielding its
    /// access and write records.
    pub fn execute_primitive(&self, cpu: &mut Cpu, ram_access: &mut Option<RamAccess>) -> (r:
        Result<Option<RegisterWrite>, Fault>)
        requires
            old(cpu).wf(),
        ensures
            exec_post(*self, *old(cpu), *final(cpu), *final(ram_access), r),
    {
        match self {
            Instruction::Addi(x) => {
                *ram_access = None;
                x.exec(cpu)
            },
            Instruction::Andi(x) => {
                *ram_access = None;
                x.exec(cpu)
            },
            Instruction::Xori(x) => {
                *ram_access = None;
                x.exec(cpu)
            },
            Instruction::Slli(x) => {
                *ram_access = None;
                x.exec(cpu)
            },
            Instruction::Srli(x) => {
                *ram_access = None;
                x.exec(cpu)
            },
            Instruction::Sll(x) => {
                *ram_access = None;
                x.exec(cpu)
            },
            Instruction::VirtualLw(x) => x.exec(cpu, ram_access),
            Instruction::Ld(x) => x.exec(cpu, ram_access),
            Instruction::Lhu(x) => x.exec(cpu, ram_access),
            Instruction::VirtualAssertHalfwordAlign(x) => {
                *ram_access = None;
                x.exec(cpu)
            },
        }
    }

    /// The fast emulation path: perform the instruction's architectural
    /// effect directly, recording no trace.
    pub fn execute(&self, cpu: &mut Cpu) -> (r: Result<(), Fault>)
        requires
            old(cpu).wf(),
        ensures
            execute_post(*self, *old(cpu), *final(cpu), r),
    {
        let mut acc: Option<RamAccess> = None;
        match self.execute_primitive(cpu, &mut acc) {
            Ok(_) => Ok(()),
            Err(f) => Err(f),
        }
    }
}

} // verus!
