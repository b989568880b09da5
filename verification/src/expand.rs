use vstd::prelude::*;
use crate::cpu::Cpu;
use crate::fault::Fault;
use crate::format::{FormatI, FormatR, HalfwordAlignFormat, virtual_register_index};
use crate::instr::{
    ADDI, ANDI, Instruction, LD, LHU, SLL, SLLI, SRLI, VirtualAssertHalfwordAlignment, VirtualLW,
    XORI,
};
use crate::format::FormatLoad;
use crate::mmu::RamAccess;
use crate::step::{Cycle, RunSpec, run_seq, state_of, lemma_run_fault_stable};
use crate::trace::Trace;
use crate::xlen::Xlen;

verus! {

impl LHU {
    /// The 32-bit expansion: assert half-word alignment of the effective
    /// address, compute it into scratch space, load the containing aligned
    /// word, turn the low address bits into a bit-shift distance (XOR with 2,
    /// times 8, exploiting little-endian byte order), shift the loaded word
    /// left so the wanted half-word lands in the top half, and shift right to
    /// zero-extend. No step branches on data. Step `k` of the eight carries
    /// `virtual_sequence_remaining` `7 - k`.
    pub open spec fn sequence_32_spec(self) -> Seq<Instruction> {
        seq![
            Instruction::VirtualAssertHalfwordAlign(
                VirtualAssertHalfwordAlignment {
                    address: self.address,
                    operands: HalfwordAlignFormat { rs1: self.operands.rs1, imm: self.operands.imm },
                    virtual_sequence_remaining: Some(7u8),
                    is_compressed: self.is_compressed,
                },
            ),
            Instruction::Addi(
                ADDI {
                    address: self.address,
                    operands: FormatI { rd: 32u8, rs1: self.operands.rs1, imm: self.operands.imm },
                    virtual_sequence_remaining: Some(6u8),
                    is_compressed: self.is_compressed,
                },
            ),
            Instruction::Andi(
                ANDI {
                    address: self.address,
                    operands: FormatI { rd: 33u8, rs1: 32u8, imm: 0xFFFF_FFFF_FFFF_FFFCu64 },
                    virtual_sequence_remaining: Some(5u8),
                    is_compressed: self.is_compressed,
                },
            ),
            Instruction::VirtualLw(
                VirtualLW {
                    address: self.address,
                    operands: FormatI { rd: 34u8, rs1: 33u8, imm: 0u64 },
                    virtual_sequence_remaining: Some(4u8),
                    is_compressed: self.is_compressed,
                },
            ),
            Instruction::Xori(
                XORI {
                    address: self.address,
                    operands: FormatI { rd: 35u8, rs1: 32u8, imm: 2u64 },
                    virtual_sequence_remaining: Some(3u8),
                    is_compressed: self.is_compressed,
                },
            ),
            Instruction::Slli(
                SLLI {
                    address: self.address,
                    operands: FormatI { rd: 35u8, rs1: 35u8, imm: 3u64 },
                    virtual_sequence_remaining: Some(2u8),
                    is_compressed: self.is_compressed,
                },
            ),
            Instruction::Sll(
                SLL {
                    address: self.address,
                    operands: FormatR { rd: self.operands.rd, rs1: 34u8, rs2: 35u8 },
                    virtual_sequence_remaining: Some(1u8),
                    is_compressed: self.is_compressed,
                },
            ),
            Instruction::Srli(
                SRLI {
                    address: self.address,
                    operands: FormatI { rd: self.operands.rd, rs1: self.operands.rd, imm: 16u64 },
                    virtual_sequence_remaining: Some(0u8),
                    is_compressed: self.is_compressed,
                },
            ),
        ]
    }

    /// The 64-bit expansion: same technique over the containing aligned
    /// double word (mask to an 8-byte boundary, XOR the address with 6,
    /// shift right by 48 at the end), on its own scratch registers.
    pub open spec fn sequence_64_spec(self) -> Seq<Instruction> {
        seq![
            Instruction::VirtualAssertHalfwordAlign(
                VirtualAssertHalfwordAlignment {
                    address: self.address,
                    operands: HalfwordAlignFormat { rs1: self.operands.rs1, imm: self.operands.imm },
                    virtual_sequence_remaining: Some(7u8),
                    is_compressed: self.is_compressed,
                },
            ),
            Instruction::Addi(
                ADDI {
                    address: self.address,
                    operands: FormatI { rd: 38u8, rs1: self.operands.rs1, imm: self.operands.imm },
                    virtual_sequence_remaining: Some(6u8),
                    is_compressed: self.is_compressed,
                },
            ),
            Instruction::Andi(
                ANDI {
                    address: self.address,
                    operands: FormatI { rd: 39u8, rs1: 38u8, imm: 0xFFFF_FFFF_FFFF_FFF8u64 },
                    virtual_sequence_remaining: Some(5u8),
                    is_compressed: self.is_compressed,
                },
            ),
            Instruction::Ld(
                LD {
                    address: self.address,
                    operands: FormatLoad { rd: 40u8, rs1: 39u8, imm: 0u64 },
                    virtual_sequence_remaining: Some(4u8),
                    is_compressed: self.is_compressed,
                },
            ),
            Instruction::Xori(
                XORI {
                    address: self.address,
                    operands: FormatI { rd: 41u8, rs1: 38u8, imm: 6u64 },
                    virtual_sequence_remaining: Some(3u8),
                    is_compressed: self.is_compressed,
                },
            ),
            Instruction::Slli(
                SLLI {
                    address: self.address,
                    operands: FormatI { rd: 41u8, rs1: 41u8, imm: 3u64 },
                    virtual_sequence_remaining: Some(2u8),
                    is_compressed: self.is_compressed,
                },
            ),
            Instruction::Sll(
                SLL {
                    address: self.address,
                    operands: FormatR { rd: self.operands.rd, rs1: 40u8, rs2: 41u8 },
                    virtual_sequence_remaining: Some(1u8),
                    is_compressed: self.is_compressed,
                },
            ),
            Instruction::Srli(
                SRLI {
                    address: self.address,
                    operands: FormatI { rd: self.operands.rd, rs1: self.operands.rd, imm: 48u64 },
                    virtual_sequence_remaining: Some(0u8),
                    is_compressed: self.is_compressed,
                },
            ),
        ]
    }

    /// The expansion selected by the width mode.
    pub open spec fn sequence_spec(self, xlen: Xlen) -> Seq<Instruction> {
        match xlen {
            Xlen::Bit32 => self.sequence_32_spec(),
            Xlen::Bit64 => self.sequence_64_spec(),
        }
    }

    /// Build the virtual sequence for the given width mode.
    pub fn virtual_sequence(&self, xlen: Xlen) -> (v: Vec<Instruction>)
        ensures
            v@ == self.sequence_spec(xlen),
    {
        match xlen {
            Xlen::Bit32 => self.virtual_sequence_32(),
            Xlen::Bit64 => self.virtual_sequence_64(),
        }
    }

    /// Build the 32-bit expansion.
    pub fn virtual_sequence_32(&self) -> (v: Vec<Instruction>)
        ensures
            v@ == self.sequence_32_spec(),
    {
        let v_address = virtual_register_index(0);
        let v_word_address = virtual_register_index(1);
        let v_word = virtual_register_index(2);
        let v_shift = virtual_register_index(3);

        let mut sequence: Vec<Instruction> = Vec::new();

        let assert_alignment = VirtualAssertHalfwordAlignment {
            address: self.address,
            operands: HalfwordAlignFormat { rs1: self.operands.rs1, imm: self.operands.imm },
            virtual_sequence_remaining: Some(7),
            is_compressed: self.is_compressed,
        };
        sequence.push(Instruction::VirtualAssertHalfwordAlign(assert_alignment));

        let add = ADDI {
            address: self.address,
            operands: FormatI { rd: v_address, rs1: self.operands.rs1, imm: self.operands.imm },
            virtual_sequence_remaining: Some(6),
            is_compressed: self.is_compressed,
        };
        sequence.push(Instruction::Addi(add));

        let andi = ANDI {
            address: self.address,
            operands: FormatI { rd: v_word_address, rs1: v_address, imm: 0xFFFF_FFFF_FFFF_FFFC },
            virtual_sequence_remaining: Some(5),
            is_compressed: self.is_compressed,
        };
        sequence.push(Instruction::Andi(andi));

        let lw = VirtualLW {
            address: self.address,
            operands: FormatI { rd: v_word, rs1: v_word_address, imm: 0 },
            virtual_sequence_remaining: Some(4),
            is_compressed: self.is_compressed,
        };
        sequence.push(Instruction::VirtualLw(lw));

        let xori = XORI {
            address: self.address,
            operands: FormatI { rd: v_shift, rs1: v_address, imm: 2 },
            virtual_sequence_remaining: Some(3),
            is_compressed: self.is_compressed,
        };
        sequence.push(Instruction::Xori(xori));

        let slli = SLLI {
            address: self.address,
            operands: FormatI { rd: v_shift, rs1: v_shift, imm: 3 },
            virtual_sequence_remaining: Some(2),
            is_compressed: self.is_compressed,
        };
        sequence.push(Instruction::Slli(slli));

        let sll = SLL {
            address: self.address,
            operands: FormatR { rd: self.operands.rd, rs1: v_word, rs2: v_shift },
            virtual_sequence_remaining: Some(1),
            is_compressed: self.is_compressed,
        };
        sequence.push(Instruction::Sll(sll));

        let srli = SRLI {
            address: self.address,
            operands: FormatI { rd: self.operands.rd, rs1: self.operands.rd, imm: 16 },
            virtual_sequence_remaining: Some(0),
            is_compressed: self.is_compressed,
        };
        sequence.push(Instruction::Srli(srli));

        proof {
            assert(sequence@ =~= self.sequence_32_spec());
        }
        sequence
    }

    /// Build the 64-bit expansion.
    pub fn virtual_sequence_64(&self) -> (v: Vec<Instruction>)
        ensures
            v@ == self.sequence_64_spec(),
    {
        let v_address = virtual_register_index(6);
        let v_dword_address = virtual_register_index(7);
        let v_dword = virtual_register_index(8);
        let v_shift = virtual_register_index(9);

        let mut sequence: Vec<Instruction> = Vec::new();

        let assert_alignment = VirtualAssertHalfwordAlignment {
            address: self.address,
            operands: HalfwordAlignFormat { rs1: self.operands.rs1, imm: self.operands.imm },
            virtual_sequence_remaining: Some(7),
            is_compressed: self.is_compressed,
        };
        sequence.push(Instruction::VirtualAssertHalfwordAlign(assert_alignment));

        let add = ADDI {
            address: self.address,
            operands: FormatI { rd: v_address, rs1: self.operands.rs1, imm: self.operands.imm },
            virtual_sequence_remaining: Some(6),
            is_compressed: self.is_compressed,
        };
        sequence.push(Instruction::Addi(add));

        let andi = ANDI {
            address: self.address,
            operands: FormatI { rd: v_dword_address, rs1: v_address, imm: 0xFFFF_FFFF_FFFF_FFF8 },
            virtual_sequence_remaining: Some(5),
            is_compressed: self.is_compressed,
        };
        sequence.push(Instruction::Andi(andi));

        let ld = LD {
            address: self.address,
            operands: FormatLoad { rd: v_dword, rs1: v_dword_address, imm: 0 },
            virtual_sequence_remaining: Some(4),
            is_compressed: self.is_compressed,
        };
        sequence.push(Instruction::Ld(ld));

        let xori = XORI {
            address: self.address,
            operands: FormatI { rd: v_shift, rs1: v_address, imm: 6 },
            virtual_sequence_remaining: Some(3),
            is_compressed: self.is_compressed,
        };
        sequence.push(Instruction::Xori(xori));

        let slli = SLLI {
            address: self.address,
            operands: FormatI { rd: v_shift, rs1: v_shift, imm: 3 },
            virtual_sequence_remaining: Some(2),
            is_compressed: self.is_compressed,
        };
        sequence.push(Instruction::Slli(slli));

        let sll = SLL {
            address: self.address,
            operands: FormatR { rd: self.operands.rd, rs1: v_dword, rs2: v_shift },
            virtual_sequence_remaining: Some(1),
            is_compressed: self.is_compressed,
        };
        sequence.push(Instruction::Sll(sll));

        let srli = SRLI {
            address: self.address,
            operands: FormatI { rd: self.operands.rd, rs1: self.operands.rd, imm: 48 },
            virtual_sequence_remaining: Some(0),
            is_compressed: self.is_compressed,
        };
        sequence.push(Instruction::Srli(srli));

        proof {
            assert(sequence@ =~= self.sequence_64_spec());
        }
        sequence
    }
}

/// The steps actually performed when tracing one instruction: its virtual
/// sequence if it expands, the instruction itself otherwise.
pub open spec fn expansion(i: Instruction, xlen: Xlen) -> Seq<Instruction> {
    match i {
        Instruction::Lhu(l) => l.sequence_spec(xlen),
        _ => seq![i],
    }
}

/// Contract of the tracing path: the hart moves to the state the reference
/// run of the expansion reaches; an active sink grows by exactly the run's
/// cycles, an inactive one is untouched; a fault of the run is surfaced after
/// the cycles before it were committed.
pub open spec fn trace_post(
    i: Instruction,
    pre: Cpu,
    post: Cpu,
    sink0: Trace,
    sink1: Trace,
    r: Result<(), Fault>,
) -> bool {
    let run = run_seq(expansion(i, pre.xlen), state_of(pre));
    &&& post.wf()
    &&& post.pc == pre.pc
    &&& post.xlen == pre.xlen
    &&& state_of(post) == run.state
    &&& sink1.is_active() == sink0.is_active()
    &&& sink1.recorded() == sink0.recorded() + (if sink0.is_active() {
        run.cycles
    } else {
        Seq::<Cycle>::empty()
    })
    &&& (match r {
        Ok(u) => run.fault is None,
        Err(f) => run.fault == Some(f),
    })
}

impl LHU {
    /// Trace the half-word load: run its virtual sequence step by step,
    /// recording one cycle per committed step; stop at the first fault.
    pub fn trace(&self, cpu: &mut Cpu, sink: &mut Trace) -> (r: Result<(), Fault>)
        requires
            old(cpu).wf(),
        ensures
            trace_post(
                Instruction::Lhu(*self),
                *old(cpu),
                *final(cpu),
                *old(sink),
                *final(sink),
                r,
            ),
    {
        let ghost st0 = state_of(*old(cpu));
        let ghost s = self.sequence_spec(old(cpu).xlen);
        let seqv = self.virtual_sequence(cpu.xlen);
        let n = seqv.len();
        let mut idx: usize = 0;
        proof {
            assert(s.take(0) =~= Seq::<Instruction>::empty());
        }
        while idx < n
            invariant
                old(cpu).wf(),
                cpu.wf(),
                idx <= n,
                n == seqv@.len(),
                seqv@ == s,
                s == self.sequence_spec(old(cpu).xlen),
                st0 == state_of(*old(cpu)),
                cpu.pc == old(cpu).pc,
                cpu.xlen == old(cpu).xlen,
                run_seq(s.take(idx as int), st0).fault is None,
                state_of(*cpu) == run_seq(s.take(idx as int), st0).state,
                sink.is_active() == old(sink).is_active(),
                sink.recorded() == old(sink).recorded() + (if old(sink).is_active() {
                    run_seq(s.take(idx as int), st0).cycles
                } else {
                    Seq::<Cycle>::empty()
                }),
            decreases n - idx,
        {
            let instr = seqv[idx];
            let mut acc: Option<RamAccess> = None;
            let res = instr.execute_primitive(cpu, &mut acc);
            proof {
                assert(s.take(idx as int + 1).drop_last() =~= s.take(idx as int));
                assert(s.take(idx as int + 1).last() == s[idx as int]);
            }
            match res {
                Ok(w) => {
                    sink.record(Cycle { instruction: instr, ram_access: acc, register_write: w });
                    proof {
                        if old(sink).is_active() {
                            assert(sink.recorded() =~= old(sink).recorded() + run_seq(
                                s.take(idx as int + 1),
                                st0,
                            ).cycles);
                        }
                    }
                    idx = idx + 1;
                },
                Err(f) => {
                    proof {
                        lemma_run_fault_stable(s, st0, idx as int + 1);
                    }
                    return Err(f);
                },
            }
        }
        proof {
            assert(s.take(n as int) =~= s);
        }
        Ok(())
    }
}

impl Instruction {
    /// Trace one instruction: perform its architectural effect (through its
    /// expansion if it has one) and record one cycle per executed step in
    /// `sink`. An inactive sink changes nothing about the effect.
    #[verifier::rlimit(60)]
    pub fn trace(&self, cpu: &mut Cpu, sink: &mut Trace) -> (r: Result<(), Fault>)
        requires
            old(cpu).wf(),
        ensures
            trace_post(*self, *old(cpu), *final(cpu), *old(sink), *final(sink), r),
    {
        match self {
            Instruction::Lhu(l) => {
                let r = l.trace(cpu, sink);
                proof {
                    assert(*self == Instruction::Lhu(*l));
                }
                r
            },
            _ => {
                let ghost st0 = state_of(*old(cpu));
                let ghost s = expansion(*self, old(cpu).xlen);
                let mut acc: Option<RamAccess> = None;
                let res = self.execute_primitive(cpu, &mut acc);
                proof {
                    assert(s =~= seq![*self]);
                    assert(s.drop_last() =~= Seq::<Instruction>::empty());
                    assert(s.last() == *self);
                    let init = run_seq(Seq::<Instruction>::empty(), st0);
                    assert(init.state == st0 && init.cycles =~= Seq::<Cycle>::empty()
                        && init.fault is None);
                }
                match res {
                    Ok(w) => {
                        sink.record(
                            Cycle { instruction: *self, ram_access: acc, register_write: w },
                        );
                        proof {
                            let run = run_seq(s, st0);
                            if old(sink).is_active() {
                                assert(sink.recorded() =~= old(sink).recorded() + run.cycles);
                            } else {
                                assert(sink.recorded() =~= old(sink).recorded() + Seq::<
                                    Cycle,
                                >::empty());
                            }
                        }
                        Ok(())
                    },
                    Err(f) => {
                        proof {
                            let run = run_seq(s, st0);
                            assert(sink.recorded() =~= old(sink).recorded() + run.cycles);
                        }
                        Err(f)
                    },
                }
            },
        }
    }
}

} // verus!
