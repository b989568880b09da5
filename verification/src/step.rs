use vstd::prelude::*;
use crate::cpu::{Cpu, write_reg};
use crate::fault::{Fault, MemWidth};
use crate::format::{FormatI, FormatLoad, FormatR, HalfwordAlignFormat, TOTAL_REGISTER_COUNT};
use crate::instr::Instruction;
use crate::mmu::{RamAccess, dword_at, half_at, word_at};
use crate::xlen::{Xlen, norm, wrap_add};

verus! {

/// The mathematical machine state one step acts on: the register file, the
/// width mode and the memory contents. The program counter is not part of a
/// step's effect: every step leaves it to the dispatch loop.
#[verifier::ext_equal]
pub struct State {
    pub regs: Seq<u64>,
    pub xlen: Xlen,
    pub mem: Map<u64, u8>,
}

/// Well-formedness of a machine state: full register file, register 0 zero,
/// all registers normalized to the width mode.
pub open spec fn state_wf(st: State) -> bool {
    &&& st.regs.len() == TOTAL_REGISTER_COUNT
    &&& st.regs[0] == 0
    &&& forall|i: int|
        0 <= i < TOTAL_REGISTER_COUNT ==> #[trigger] st.regs[i] == norm(st.xlen, st.regs[i])
}

/// The machine state a hart currently holds.
pub open spec fn state_of(c: Cpu) -> State {
    State { regs: c.x@, xlen: c.xlen, mem: c.mmu.mem() }
}

/// The register write performed by one executed step, if any.
#[derive(Clone, Copy, PartialEq, Eq, Structural, Debug)]
pub struct RegisterWrite {
    pub register: u8,
    pub value: u64,
}

/// One step of the trace: the executed instruction, its RAM access record
/// (if any) and the resulting register write (if any).
#[derive(Clone, Copy, PartialEq, Eq, Debug)]
pub struct Cycle {
    pub instruction: Instruction,
    pub ram_access: Option<RamAccess>,
    pub register_write: Option<RegisterWrite>,
}

/// The full effect of one executed step: the next state (unchanged on a
/// fault), the fault if one was raised, and the access and write records.
#[verifier::ext_equal]
pub struct StepSpec {
    pub state: State,
    pub fault: Option<Fault>,
    pub access: Option<RamAccess>,
    pub write: Option<RegisterWrite>,
}

/// A step that faults: state untouched, no access, no write.
pub open spec fn step_fault(st: State, f: Fault) -> StepSpec {
    StepSpec { state: st, fault: Some(f), access: None, write: None }
}

/// A step that writes `v` to register `rd` and does nothing else.
pub open spec fn step_write(st: State, rd: u8, v: u64) -> StepSpec {
    StepSpec {
        state: State { regs: write_reg(st.xlen, st.regs, rd, v), ..st },
        fault: None,
        access: None,
        write: if rd == 0 {
            None
        } else {
            Some(RegisterWrite { register: rd, value: norm(st.xlen, v) })
        },
    }
}

/// A step that loads `v` from memory into `rd`, recording the access.
pub open spec fn step_load(st: State, rd: u8, ea: u64, width: MemWidth, v: u64) -> StepSpec {
    StepSpec {
        state: State { regs: write_reg(st.xlen, st.regs, rd, v), ..st },
        fault: None,
        access: Some(RamAccess { address: ea, width, is_store: false, value: v }),
        write: if rd == 0 {
            None
        } else {
            Some(RegisterWrite { register: rd, value: norm(st.xlen, v) })
        },
    }
}

/// A step with no effect at all (a satisfied assertion).
pub open spec fn step_nop(st: State) -> StepSpec {
    StepSpec { state: st, fault: None, access: None, write: None }
}

pub open spec fn fi_ok(f: FormatI) -> bool {
    f.rd < TOTAL_REGISTER_COUNT && f.rs1 < TOTAL_REGISTER_COUNT
}

pub open spec fn fi_bad(f: FormatI) -> u8 {
    if f.rd >= TOTAL_REGISTER_COUNT {
        f.rd
    } else {
        f.rs1
    }
}

pub open spec fn fl_ok(f: FormatLoad) -> bool {
    f.rd < TOTAL_REGISTER_COUNT && f.rs1 < TOTAL_REGISTER_COUNT
}

pub open spec fn fl_bad(f: FormatLoad) -> u8 {
    if f.rd >= TOTAL_REGISTER_COUNT {
        f.rd
    } else {
        f.rs1
    }
}

pub open spec fn fr_ok(f: FormatR) -> bool {
    f.rd < TOTAL_REGISTER_COUNT && f.rs1 < TOTAL_REGISTER_COUNT && f.rs2 < TOTAL_REGISTER_COUNT
}

pub open spec fn fr_bad(f: FormatR) -> u8 {
    if f.rd >= TOTAL_REGISTER_COUNT {
        f.rd
    } else if f.rs1 >= TOTAL_REGISTER_COUNT {
        f.rs1
    } else {
        f.rs2
    }
}

pub open spec fn fh_ok(f: HalfwordAlignFormat) -> bool {
    f.rs1 < TOTAL_REGISTER_COUNT
}

/// The effective address of an access: base register plus displacement,
/// wrapped to the width mode.
pub open spec fn effective_address(st: State, rs1: u8, imm: u64) -> u64 {
    norm(st.xlen, wrap_add(st.regs[rs1 as int], imm))
}

/// The direct single-step reference semantics of every instruction: what one
/// executed step does to a machine state, which fault it raises and which
/// records it yields.
pub open spec fn step_spec(i: Instruction, st: State) -> StepSpec {
    match i {
        Instruction::Addi(x) => if !fi_ok(x.operands) {
            step_fault(st, Fault::UnsupportedRegister { index: fi_bad(x.operands) })
        } else {
            step_write(st, x.operands.rd, wrap_add(st.regs[x.operands.rs1 as int], x.operands.imm))
        },
        Instruction::Andi(x) => if !fi_ok(x.operands) {
            step_fault(st, Fault::UnsupportedRegister { index: fi_bad(x.operands) })
        } else {
            step_write(st, x.operands.rd, st.regs[x.operands.rs1 as int] & x.operands.imm)
        },
        Instruction::Xori(x) => if !fi_ok(x.operands) {
            step_fault(st, Fault::UnsupportedRegister { index: fi_bad(x.operands) })
        } else {
            step_write(st, x.operands.rd, st.regs[x.operands.rs1 as int] ^ x.operands.imm)
        },
        Instruction::Slli(x) => if !fi_ok(x.operands) {
            step_fault(st, Fault::UnsupportedRegister { index: fi_bad(x.operands) })
        } else {
            step_write(
                st,
                x.operands.rd,
                st.regs[x.operands.rs1 as int] << (x.operands.imm & st.xlen.spec_shift_mask()),
            )
        },
        Instruction::Srli(x) => if !fi_ok(x.operands) {
            step_fault(st, Fault::UnsupportedRegister { index: fi_bad(x.operands) })
        } else {
            step_write(
                st,
                x.operands.rd,
                st.regs[x.operands.rs1 as int] >> (x.operands.imm & st.xlen.spec_shift_mask()),
            )
        },
        Instruction::Sll(x) => if !fr_ok(x.operands) {
            step_fault(st, Fault::UnsupportedRegister { index: fr_bad(x.operands) })
        } else {
            step_write(
                st,
                x.operands.rd,
                st.regs[x.operands.rs1 as int] << (st.regs[x.operands.rs2 as int]
                    & st.xlen.spec_shift_mask()),
            )
        },
        Instruction::VirtualLw(x) => if !fi_ok(x.operands) {
            step_fault(st, Fault::UnsupportedRegister { index: fi_bad(x.operands) })
        } else {
            let ea = effective_address(st, x.operands.rs1, x.operands.imm);
            if ea % 4 != 0 {
                step_fault(st, Fault::MmuMisalignment { target: ea, width: MemWidth::Word })
            } else {
                step_load(st, x.operands.rd, ea, MemWidth::Word, word_at(st.mem, ea) as u64)
            }
        },
        Instruction::Ld(x) => if !fl_ok(x.operands) {
            step_fault(st, Fault::UnsupportedRegister { index: fl_bad(x.operands) })
        } else {
            let ea = effective_address(st, x.operands.rs1, x.operands.imm);
            if ea % 8 != 0 {
                step_fault(st, Fault::MmuMisalignment { target: ea, width: MemWidth::Double })
            } else {
                step_load(st, x.operands.rd, ea, MemWidth::Double, dword_at(st.mem, ea))
            }
        },
        Instruction::Lhu(x) => if !fl_ok(x.operands) {
            step_fault(st, Fault::UnsupportedRegister { index: fl_bad(x.operands) })
        } else {
            let ea = effective_address(st, x.operands.rs1, x.operands.imm);
            if ea % 2 != 0 {
                step_fault(st, Fault::MmuMisalignment { target: ea, width: MemWidth::Half })
            } else {
                step_load(st, x.operands.rd, ea, MemWidth::Half, half_at(st.mem, ea) as u64)
            }
        },
        Instruction::VirtualAssertHalfwordAlign(x) => if !fh_ok(x.operands) {
            step_fault(st, Fault::UnsupportedRegister { index: x.operands.rs1 })
        } else {
            let ea = effective_address(st, x.operands.rs1, x.operands.imm);
            if ea % 2 != 0 {
                step_fault(
                    st,
                    Fault::ArchitecturalMisalignment { address: x.address, target: ea },
                )
            } else {
                step_nop(st)
            }
        },
    }
}

/// The cycle recorded for one successfully executed step.
pub open spec fn cycle_of(i: Instruction, out: StepSpec) -> Cycle {
    Cycle { instruction: i, ram_access: out.access, register_write: out.write }
}

/// The outcome of running a sequence of steps: final state, the cycles of
/// the steps that committed (in execution order), and the first fault if one
/// was raised. A fault stops the run at once; the state then reflects every
/// step before the faulting one and nothing of the faulting one itself.
#[verifier::ext_equal]
pub struct RunSpec {
    pub state: State,
    pub cycles: Seq<Cycle>,
    pub fault: Option<Fault>,
}

/// Reference semantics of running `s` in order from `st`.
pub open spec fn run_seq(s: Seq<Instruction>, st: State) -> RunSpec
    decreases s.len(),
{
    if s.len() == 0 {
        RunSpec { state: st, cycles: Seq::empty(), fault: None }
    } else {
        let prev = run_seq(s.drop_last(), st);
        if prev.fault is Some {
            prev
        } else {
            let out = step_spec(s.last(), prev.state);
            if out.fault is Some {
                RunSpec { state: prev.state, cycles: prev.cycles, fault: out.fault }
            } else {
                RunSpec {
                    state: out.state,
                    cycles: prev.cycles.push(cycle_of(s.last(), out)),
                    fault: None,
                }
            }
        }
    }
}

/// After a prefix has faulted, running any extension of it changes nothing.
pub proof fn lemma_run_fault_stable(s: Seq<Instruction>, st: State, k: int)
    requires
        0 <= k <= s.len(),
        run_seq(s.take(k), st).fault is Some,
    ensures
        run_seq(s, st) == run_seq(s.take(k), st),
    decreases s.len() - k,
{
    if k == s.len() {
        assert(s.take(k) =~= s);
    } else {
        assert(s.take(k + 1).drop_last() =~= s.take(k));
        lemma_run_fault_stable(s, st, k + 1);
    }
}

} // verus!
