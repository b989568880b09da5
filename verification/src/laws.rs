use vstd::prelude::*;
use crate::fault::{Fault, MemWidth};
use crate::format::REGISTER_COUNT;
use crate::instr::{
    ADDI, ANDI, Instruction, LHU, SLL, SLLI, SRLI, VirtualAssertHalfwordAlignment, VirtualLW, XORI,
};
use crate::format::{FormatI, FormatR, HalfwordAlignFormat};
use crate::mmu::{RamAccess, byte_at, dword_at, half_at, word_at};
use crate::step::{
    Cycle, RegisterWrite, RunSpec, State, cycle_of, run_seq, state_wf, step_spec,
    lemma_run_fault_stable,
};
use crate::xlen::{Xlen, norm, wrap_add};

verus! {

/// The exact outcome of running the 32-bit virtual sequence of a half-word
/// load: every intermediate value written, every cycle recorded, and the
/// fault on a misaligned effective address. Everything is a function of the
/// base register value, the memory contents and the operands alone.
pub open spec fn lhu_expected_32(lhu: LHU, st: State) -> RunSpec {
    let rd = lhu.operands.rd;
    let base = st.regs[lhu.operands.rs1 as int];
    let ea = wrap_add(base, lhu.operands.imm) & 0xFFFF_FFFFu64;
    let s = lhu.sequence_32_spec();
    if ea % 2 != 0 {
        RunSpec {
            state: st,
            cycles: Seq::empty(),
            fault: Some(Fault::ArchitecturalMisalignment { address: lhu.address, target: ea }),
        }
    } else {
        let wa = (ea & 0xFFFF_FFFF_FFFF_FFFCu64) & 0xFFFF_FFFFu64;
        let w = word_at(st.mem, wa) as u64;
        let sh1 = (ea ^ 2) & 0xFFFF_FFFFu64;
        let sh2 = ((ea ^ 2) << 3) & 0xFFFF_FFFFu64;
        let v6 = (w << (sh2 & 31)) & 0xFFFF_FFFFu64;
        let res = v6 >> 16;
        let regs_v = st.regs.update(32, ea).update(33, wa).update(34, w).update(35, sh2);
        let regs_fin = if rd == 0 {
            regs_v
        } else {
            regs_v.update(rd as int, res)
        };
        RunSpec {
            state: State { regs: regs_fin, xlen: st.xlen, mem: st.mem },
            cycles: seq![
                Cycle { instruction: s[0], ram_access: None, register_write: None },
                Cycle {
                    instruction: s[1],
                    ram_access: None,
                    register_write: Some(RegisterWrite { register: 32u8, value: ea }),
                },
                Cycle {
                    instruction: s[2],
                    ram_access: None,
                    register_write: Some(RegisterWrite { register: 33u8, value: wa }),
                },
                Cycle {
                    instruction: s[3],
                    ram_access: Some(
                        RamAccess {
                            address: wa,
                            width: MemWidth::Word,
                            is_store: false,
                            value: w,
                        },
                    ),
                    register_write: Some(RegisterWrite { register: 34u8, value: w }),
                },
                Cycle {
                    instruction: s[4],
                    ram_access: None,
                    register_write: Some(RegisterWrite { register: 35u8, value: sh1 }),
                },
                Cycle {
                    instruction: s[5],
                    ram_access: None,
                    register_write: Some(RegisterWrite { register: 35u8, value: sh2 }),
                },
                Cycle {
                    instruction: s[6],
                    ram_access: None,
                    register_write: if rd == 0 {
                        None
                    } else {
                        Some(RegisterWrite { register: rd, value: v6 })
                    },
                },
                Cycle {
                    instruction: s[7],
                    ram_access: None,
                    register_write: if rd == 0 {
                        None
                    } else {
                        Some(RegisterWrite { register: rd, value: res })
                    },
                },
            ],
            fault: None,
        }
    }
}

/// The exact outcome of the 64-bit virtual sequence of a half-word load.
pub open spec fn lhu_expected_64(lhu: LHU, st: State) -> RunSpec {
    let rd = lhu.operands.rd;
    let base = st.regs[lhu.operands.rs1 as int];
    let ea = wrap_add(base, lhu.operands.imm) & 0xFFFF_FFFF_FFFF_FFFFu64;
    let s = lhu.sequence_64_spec();
    if ea % 2 != 0 {
        RunSpec {
            state: st,
            cycles: Seq::empty(),
            fault: Some(Fault::ArchitecturalMisalignment { address: lhu.address, target: ea }),
        }
    } else {
        let wa = (ea & 0xFFFF_FFFF_FFFF_FFF8u64) & 0xFFFF_FFFF_FFFF_FFFFu64;
        let w = dword_at(st.mem, wa);
        let sh1 = (ea ^ 6) & 0xFFFF_FFFF_FFFF_FFFFu64;
        let sh2 = ((ea ^ 6) << 3) & 0xFFFF_FFFF_FFFF_FFFFu64;
        let v6 = (w << (sh2 & 63)) & 0xFFFF_FFFF_FFFF_FFFFu64;
        let res = v6 >> 48;
        let regs_v = st.regs.update(38, ea).update(39, wa).update(40, w).update(41, sh2);
        let regs_fin = if rd == 0 {
            regs_v
        } else {
            regs_v.update(rd as int, res)
        };
        RunSpec {
            state: State { regs: regs_fin, xlen: st.xlen, mem: st.mem },
            cycles: seq![
                Cycle { instruction: s[0], ram_access: None, register_write: None },
                Cycle {
                    instruction: s[1],
                    ram_access: None,
                    register_write: Some(RegisterWrite { register: 38u8, value: ea }),
                },
                Cycle {
                    instruction: s[2],
                    ram_access: None,
                    register_write: Some(RegisterWrite { register: 39u8, value: wa }),
                },
                Cycle {
                    instruction: s[3],
                    ram_access: Some(
                        RamAccess {
                            address: wa,
                            width: MemWidth::Double,
                            is_store: false,
                            value: w,
                        },
                    ),
                    register_write: Some(RegisterWrite { register: 40u8, value: w }),
                },
                Cycle {
                    instruction: s[4],
                    ram_access: None,
                    register_write: Some(RegisterWrite { register: 41u8, value: sh1 }),
                },
                Cycle {
                    instruction: s[5],
                    ram_access: None,
                    register_write: Some(RegisterWrite { register: 41u8, value: sh2 }),
                },
                Cycle {
                    instruction: s[6],
                    ram_access: None,
                    register_write: if rd == 0 {
                        None
                    } else {
                        Some(RegisterWrite { register: rd, value: v6 })
                    },
                },
                Cycle {
                    instruction: s[7],
                    ram_access: None,
                    register_write: if rd == 0 {
                        None
                    } else {
                        Some(RegisterWrite { register: rd, value: res })
                    },
                },
            ],
            fault: None,
        }
    }
}

/// Unfolding of one more step of a faultless run.
pub proof fn lemma_run_step(s: Seq<Instruction>, st: State, k: int)
    requires
        0 <= k < s.len(),
        run_seq(s.take(k), st).fault is None,
    ensures
        ({
            let prev = run_seq(s.take(k), st);
            let out = step_spec(s[k], prev.state);
            run_seq(s.take(k + 1), st) == (if out.fault is Some {
                RunSpec { state: prev.state, cycles: prev.cycles, fault: out.fault }
            } else {
                RunSpec {
                    state: out.state,
                    cycles: prev.cycles.push(cycle_of(s[k], out)),
                    fault: None,
                }
            })
        }),
{
    assert(s.take(k + 1).drop_last() =~= s.take(k));
    assert(s.take(k + 1).last() == s[k]);
}

/// Steps 0 and 1 of the 32-bit expansion: the alignment assertion passes and
/// the effective address lands in scratch register 32.
#[verifier::rlimit(100)]
proof fn lemma_lhu_32_steps01(lhu: LHU, st: State, ea: u64)
    requires
        st.regs.len() == crate::format::TOTAL_REGISTER_COUNT,
        st.xlen == Xlen::Bit32,
        lhu.operands.rd < REGISTER_COUNT,
        lhu.operands.rs1 < REGISTER_COUNT,
        ea == wrap_add(st.regs[lhu.operands.rs1 as int], lhu.operands.imm) & 0xFFFF_FFFFu64,
        ea % 2 == 0,
    ensures
        ({
            let s = lhu.sequence_32_spec();
            let r2 = run_seq(s.take(2), st);
            &&& r2.fault is None
            &&& r2.state == State { regs: st.regs.update(32, ea), xlen: st.xlen, mem: st.mem }
            &&& r2.cycles == seq![
                Cycle { instruction: s[0], ram_access: None, register_write: None },
                Cycle {
                    instruction: s[1],
                    ram_access: None,
                    register_write: Some(RegisterWrite { register: 32u8, value: ea }),
                },
            ]
        }),
{
    let s = lhu.sequence_32_spec();
    let x = Xlen::Bit32;
    let ops = lhu.operands;
    assert(s.take(0) =~= Seq::<Instruction>::empty());
    let r0 = run_seq(s.take(0), st);
    assert(r0.state == st && r0.cycles == Seq::<Cycle>::empty() && r0.fault is None);
    assert(norm(x, wrap_add(st.regs[ops.rs1 as int], ops.imm)) == ea);
    lemma_run_step(s, st, 0);
    let out0 = step_spec(s[0], st);
    assert(out0.fault is None && out0.state == st && out0.access is None && out0.write is None);
    let r1 = run_seq(s.take(1), st);
    lemma_run_step(s, st, 1);
    let out1 = step_spec(s[1], r1.state);
    assert(out1.fault is None && out1.state.regs == st.regs.update(32, ea) && out1.state.xlen
        == st.xlen && out1.state.mem == st.mem && out1.access is None && out1.write == Some(
        RegisterWrite { register: 32u8, value: ea },
    ));
    let r2 = run_seq(s.take(2), st);
    assert(r2.state =~= State { regs: st.regs.update(32, ea), xlen: st.xlen, mem: st.mem });
    assert(r2.cycles =~= seq![cycle_of(s[0], out0), cycle_of(s[1], out1)]);
}

/// Steps 2 and 3 of the 32-bit expansion: mask to the containing word
/// boundary and load the aligned word.
#[verifier::rlimit(100)]
proof fn lemma_lhu_32_steps23(lhu: LHU, st: State, ea: u64, wa: u64, w: u64)
    requires
        st.regs.len() == crate::format::TOTAL_REGISTER_COUNT,
        st.xlen == Xlen::Bit32,
        lhu.operands.rd < REGISTER_COUNT,
        lhu.operands.rs1 < REGISTER_COUNT,
        wa == (ea & 0xFFFF_FFFF_FFFF_FFFCu64) & 0xFFFF_FFFFu64,
        wa % 4 == 0,
        wrap_add(wa, 0) & 0xFFFF_FFFFu64 == wa,
        w == word_at(st.mem, wa) as u64,
        w & 0xFFFF_FFFFu64 == w,
        run_seq(lhu.sequence_32_spec().take(2), st).fault is None,
        run_seq(lhu.sequence_32_spec().take(2), st).state == (State {
            regs: st.regs.update(32, ea),
            xlen: st.xlen,
            mem: st.mem,
        }),
    ensures
        ({
            let s = lhu.sequence_32_spec();
            let r2 = run_seq(s.take(2), st);
            let r4 = run_seq(s.take(4), st);
            &&& r4.fault is None
            &&& r4.state == State {
                regs: st.regs.update(32, ea).update(33, wa).update(34, w),
                xlen: st.xlen,
                mem: st.mem,
            }
            &&& r4.cycles == r2.cycles.push(
                Cycle {
                    instruction: s[2],
                    ram_access: None,
                    register_write: Some(RegisterWrite { register: 33u8, value: wa }),
                },
            ).push(
                Cycle {
                    instruction: s[3],
                    ram_access: Some(
                        RamAccess {
                            address: wa,
                            width: MemWidth::Word,
                            is_store: false,
                            value: w,
                        },
                    ),
                    register_write: Some(RegisterWrite { register: 34u8, value: w }),
                },
            )
        }),
{
    let s = lhu.sequence_32_spec();
    let x = Xlen::Bit32;
    let regs1 = st.regs.update(32, ea);
    let r2 = run_seq(s.take(2), st);
    assert(regs1[32] == ea);
    lemma_run_step(s, st, 2);
    let out2 = step_spec(s[2], r2.state);
    let regs2 = regs1.update(33, wa);
    assert(out2.fault is None && out2.state.regs == regs2 && out2.state.xlen == st.xlen
        && out2.state.mem == st.mem && out2.access is None && out2.write == Some(
        RegisterWrite { register: 33u8, value: wa },
    ));
    let r3 = run_seq(s.take(3), st);
    assert(regs2[33] == wa);
    assert(norm(x, wrap_add(wa, 0)) == wa);
    lemma_run_step(s, st, 3);
    let out3 = step_spec(s[3], r3.state);
    assert(out3.fault is None && out3.state.regs == regs2.update(34, w) && out3.state.xlen
        == st.xlen && out3.state.mem == st.mem && out3.access == Some(
        RamAccess { address: wa, width: MemWidth::Word, is_store: false, value: w },
    ) && out3.write == Some(RegisterWrite { register: 34u8, value: w }));
    let r4 = run_seq(s.take(4), st);
    assert(r4.state =~= State {
        regs: st.regs.update(32, ea).update(33, wa).update(34, w),
        xlen: st.xlen,
        mem: st.mem,
    });
}

/// Steps 4 and 5 of the 32-bit expansion: turn the low address bits into a
/// bit-shift distance.
#[verifier::rlimit(100)]
proof fn lemma_lhu_32_steps45(lhu: LHU, st: State, ea: u64, wa: u64, w: u64, sh1: u64, sh2: u64)
    requires
        st.regs.len() == crate::format::TOTAL_REGISTER_COUNT,
        st.xlen == Xlen::Bit32,
        lhu.operands.rd < REGISTER_COUNT,
        lhu.operands.rs1 < REGISTER_COUNT,
        sh1 == (ea ^ 2) & 0xFFFF_FFFFu64,
        (sh1 << (3u64 & 31)) & 0xFFFF_FFFFu64 == sh2,
        run_seq(lhu.sequence_32_spec().take(4), st).fault is None,
        run_seq(lhu.sequence_32_spec().take(4), st).state == (State {
            regs: st.regs.update(32, ea).update(33, wa).update(34, w),
            xlen: st.xlen,
            mem: st.mem,
        }),
    ensures
        ({
            let s = lhu.sequence_32_spec();
            let r4 = run_seq(s.take(4), st);
            let r6 = run_seq(s.take(6), st);
            &&& r6.fault is None
            &&& r6.state == State {
                regs: st.regs.update(32, ea).update(33, wa).update(34, w).update(35, sh1).update(
                    35,
                    sh2,
                ),
                xlen: st.xlen,
                mem: st.mem,
            }
            &&& r6.cycles == r4.cycles.push(
                Cycle {
                    instruction: s[4],
                    ram_access: None,
                    register_write: Some(RegisterWrite { register: 35u8, value: sh1 }),
                },
            ).push(
                Cycle {
                    instruction: s[5],
                    ram_access: None,
                    register_write: Some(RegisterWrite { register: 35u8, value: sh2 }),
                },
            )
        }),
{
    let s = lhu.sequence_32_spec();
    let x = Xlen::Bit32;
    let regs3 = st.regs.update(32, ea).update(33, wa).update(34, w);
    let r4 = run_seq(s.take(4), st);
    assert(regs3[32] == ea);
    lemma_run_step(s, st, 4);
    let out4 = step_spec(s[4], r4.state);
    let regs4 = regs3.update(35, sh1);
    assert(out4.fault is None && out4.state.regs == regs4 && out4.state.xlen == st.xlen
        && out4.state.mem == st.mem && out4.access is None && out4.write == Some(
        RegisterWrite { register: 35u8, value: sh1 },
    ));
    let r5 = run_seq(s.take(5), st);
    assert(regs4[35] == sh1);
    lemma_run_step(s, st, 5);
    let out5 = step_spec(s[5], r5.state);
    assert(out5.fault is None && out5.state.regs == regs4.update(35, sh2) && out5.state.xlen
        == st.xlen && out5.state.mem == st.mem && out5.access is None && out5.write == Some(
        RegisterWrite { register: 35u8, value: sh2 },
    ));
    let r6 = run_seq(s.take(6), st);
    assert(r6.state =~= State { regs: regs4.update(35, sh2), xlen: st.xlen, mem: st.mem });
}

/// Steps 6 and 7 of the 32-bit expansion: shift the loaded word into place
/// and zero-extend into the destination register.
#[verifier::rlimit(100)]
proof fn lemma_lhu_32_steps67(lhu: LHU, st: State, ea: u64, wa: u64, w: u64, sh1: u64, sh2: u64, v6: u64, res: u64)
    requires
        st.regs.len() == crate::format::TOTAL_REGISTER_COUNT,
        st.regs[0] == 0,
        st.xlen == Xlen::Bit32,
        lhu.operands.rd < REGISTER_COUNT,
        lhu.operands.rs1 < REGISTER_COUNT,
        (w << (sh2 & 31)) & 0xFFFF_FFFFu64 == v6,
        v6 & 0xFFFF_FFFFu64 == v6,
        (v6 >> (16u64 & 31)) & 0xFFFF_FFFFu64 == res,
        (0u64 >> (16u64 & 31)) & 0xFFFF_FFFFu64 == 0,
        run_seq(lhu.sequence_32_spec().take(6), st).fault is None,
        run_seq(lhu.sequence_32_spec().take(6), st).state == (State {
            regs: st.regs.update(32, ea).update(33, wa).update(34, w).update(35, sh1).update(
                35,
                sh2,
            ),
            xlen: st.xlen,
            mem: st.mem,
        }),
    ensures
        ({
            let s = lhu.sequence_32_spec();
            let rd = lhu.operands.rd;
            let r6 = run_seq(s.take(6), st);
            let r8 = run_seq(s.take(8), st);
            let regs5 = st.regs.update(32, ea).update(33, wa).update(34, w).update(35, sh1).update(
                35,
                sh2,
            );
            &&& r8.fault is None
            &&& r8.state == State {
                regs: (if rd == 0 {
                    regs5
                } else {
                    regs5.update(rd as int, v6).update(rd as int, res)
                }),
                xlen: st.xlen,
                mem: st.mem,
            }
            &&& r8.cycles == r6.cycles.push(
                Cycle {
                    instruction: s[6],
                    ram_access: None,
                    register_write: if rd == 0 {
                        None
                    } else {
                        Some(RegisterWrite { register: rd, value: v6 })
                    },
                },
            ).push(
                Cycle {
                    instruction: s[7],
                    ram_access: None,
                    register_write: if rd == 0 {
                        None
                    } else {
                        Some(RegisterWrite { register: rd, value: res })
                    },
                },
            )
        }),
{
    let s = lhu.sequence_32_spec();
    let x = Xlen::Bit32;
    let rd = lhu.operands.rd;
    let regs5 = st.regs.update(32, ea).update(33, wa).update(34, w).update(35, sh1).update(
        35,
        sh2,
    );
    let r6 = run_seq(s.take(6), st);
    assert(regs5[34] == w && regs5[35] == sh2);
    lemma_run_step(s, st, 6);
    let out6 = step_spec(s[6], r6.state);
    let regs6 = if rd == 0 {
        regs5
    } else {
        regs5.update(rd as int, v6)
    };
    assert(out6.fault is None && out6.state.regs == regs6 && out6.state.xlen == st.xlen
        && out6.state.mem == st.mem && out6.access is None && out6.write == (if rd == 0 {
        None
    } else {
        Some(RegisterWrite { register: rd, value: v6 })
    }));
    let r7 = run_seq(s.take(7), st);
    assert(rd != 0 ==> regs6[rd as int] == v6);
    assert(rd == 0 ==> regs6[rd as int] == 0);
    lemma_run_step(s, st, 7);
    let out7 = step_spec(s[7], r7.state);
    let regs7 = if rd == 0 {
        regs6
    } else {
        regs6.update(rd as int, res)
    };
    assert(out7.fault is None && out7.state.regs == regs7 && out7.state.xlen == st.xlen
        && out7.state.mem == st.mem && out7.access is None && out7.write == (if rd == 0 {
        None
    } else {
        Some(RegisterWrite { register: rd, value: res })
    }));
    let r8 = run_seq(s.take(8), st);
    assert(r8.state =~= State { regs: regs7, xlen: st.xlen, mem: st.mem });
}

/// Steps 0 and 1 of the 64-bit expansion: the alignment assertion passes and
/// the effective address lands in scratch register 32.
#[verifier::rlimit(100)]
proof fn lemma_lhu_64_steps01(lhu: LHU, st: State, ea: u64)
    requires
        st.regs.len() == crate::format::TOTAL_REGISTER_COUNT,
        st.xlen == Xlen::Bit64,
        lhu.operands.rd < REGISTER_COUNT,
        lhu.operands.rs1 < REGISTER_COUNT,
        ea == wrap_add(st.regs[lhu.operands.rs1 as int], lhu.operands.imm) & 0xFFFF_FFFF_FFFF_FFFFu64,
        ea % 2 == 0,
    ensures
        ({
            let s = lhu.sequence_64_spec();
            let r2 = run_seq(s.take(2), st);
            &&& r2.fault is None
            &&& r2.state == State { regs: st.regs.update(38, ea), xlen: st.xlen, mem: st.mem }
            &&& r2.cycles == seq![
                Cycle { instruction: s[0], ram_access: None, register_write: None },
                Cycle {
                    instruction: s[1],
                    ram_access: None,
                    register_write: Some(RegisterWrite { register: 38u8, value: ea }),
                },
            ]
        }),
{
    let s = lhu.sequence_64_spec();
    let x = Xlen::Bit64;
    let ops = lhu.operands;
    assert(s.take(0) =~= Seq::<Instruction>::empty());
    let r0 = run_seq(s.take(0), st);
    assert(r0.state == st && r0.cycles == Seq::<Cycle>::empty() && r0.fault is None);
    assert(norm(x, wrap_add(st.regs[ops.rs1 as int], ops.imm)) == ea);
    lemma_run_step(s, st, 0);
    let out0 = step_spec(s[0], st);
    assert(out0.fault is None && out0.state == st && out0.access is None && out0.write is None);
    let r1 = run_seq(s.take(1), st);
    lemma_run_step(s, st, 1);
    let out1 = step_spec(s[1], r1.state);
    assert(out1.fault is None && out1.state.regs == st.regs.update(38, ea) && out1.state.xlen
        == st.xlen && out1.state.mem == st.mem && out1.access is None && out1.write == Some(
        RegisterWrite { register: 38u8, value: ea },
    ));
    let r2 = run_seq(s.take(2), st);
    assert(r2.state =~= State { regs: st.regs.update(38, ea), xlen: st.xlen, mem: st.mem });
    assert(r2.cycles =~= seq![cycle_of(s[0], out0), cycle_of(s[1], out1)]);
}

/// Steps 2 and 3 of the 64-bit expansion: mask to the containing double-word
/// boundary and load the aligned double word.
#[verifier::rlimit(100)]
proof fn lemma_lhu_64_steps23(lhu: LHU, st: State, ea: u64, wa: u64, w: u64)
    requires
        st.regs.len() == crate::format::TOTAL_REGISTER_COUNT,
        st.xlen == Xlen::Bit64,
        lhu.operands.rd < REGISTER_COUNT,
        lhu.operands.rs1 < REGISTER_COUNT,
        wa == (ea & 0xFFFF_FFFF_FFFF_FFF8u64) & 0xFFFF_FFFF_FFFF_FFFFu64,
        wa % 8 == 0,
        wrap_add(wa, 0) & 0xFFFF_FFFF_FFFF_FFFFu64 == wa,
        w == dword_at(st.mem, wa),
        w & 0xFFFF_FFFF_FFFF_FFFFu64 == w,
        run_seq(lhu.sequence_64_spec().take(2), st).fault is None,
        run_seq(lhu.sequence_64_spec().take(2), st).state == (State {
            regs: st.regs.update(38, ea),
            xlen: st.xlen,
            mem: st.mem,
        }),
    ensures
        ({
            let s = lhu.sequence_64_spec();
            let r2 = run_seq(s.take(2), st);
            let r4 = run_seq(s.take(4), st);
            &&& r4.fault is None
            &&& r4.state == State {
                regs: st.regs.update(38, ea).update(39, wa).update(40, w),
                xlen: st.xlen,
                mem: st.mem,
            }
            &&& r4.cycles == r2.cycles.push(
                Cycle {
                    instruction: s[2],
                    ram_access: None,
                    register_write: Some(RegisterWrite { register: 39u8, value: wa }),
                },
            ).push(
                Cycle {
                    instruction: s[3],
                    ram_access: Some(
                        RamAccess {
                            address: wa,
                            width: MemWidth::Double,
                            is_store: false,
                            value: w,
                        },
                    ),
                    register_write: Some(RegisterWrite { register: 40u8, value: w }),
                },
            )
        }),
{
    let s = lhu.sequence_64_spec();
    let x = Xlen::Bit64;
    let regs1 = st.regs.update(38, ea);
    let r2 = run_seq(s.take(2), st);
    assert(regs1[38] == ea);
    lemma_run_step(s, st, 2);
    let out2 = step_spec(s[2], r2.state);
    let regs2 = regs1.update(39, wa);
    assert(out2.fault is None && out2.state.regs == regs2 && out2.state.xlen == st.xlen
        && out2.state.mem == st.mem && out2.access is None && out2.write == Some(
        RegisterWrite { register: 39u8, value: wa },
    ));
    let r3 = run_seq(s.take(3), st);
    assert(regs2[39] == wa);
    assert(norm(x, wrap_add(wa, 0)) == wa);
    lemma_run_step(s, st, 3);
    let out3 = step_spec(s[3], r3.state);
    assert(out3.fault is None && out3.state.regs == regs2.update(40, w) && out3.state.xlen
        == st.xlen && out3.state.mem == st.mem && out3.access == Some(
        RamAccess { address: wa, width: MemWidth::Double, is_store: false, value: w },
    ) && out3.write == Some(RegisterWrite { register: 40u8, value: w }));
    let r4 = run_seq(s.take(4), st);
    assert(r4.state =~= State {
        regs: st.regs.update(38, ea).update(39, wa).update(40, w),
        xlen: st.xlen,
        mem: st.mem,
    });
}

/// Steps 4 and 5 of the 64-bit expansion: turn the low address bits into a
/// bit-shift distance.
#[verifier::rlimit(100)]
proof fn lemma_lhu_64_steps45(lhu: LHU, st: State, ea: u64, wa: u64, w: u64, sh1: u64, sh2: u64)
    requires
        st.regs.len() == crate::format::TOTAL_REGISTER_COUNT,
        st.xlen == Xlen::Bit64,
        lhu.operands.rd < REGISTER_COUNT,
        lhu.operands.rs1 < REGISTER_COUNT,
        sh1 == (ea ^ 6) & 0xFFFF_FFFF_FFFF_FFFFu64,
        (sh1 << (3u64 & 63)) & 0xFFFF_FFFF_FFFF_FFFFu64 == sh2,
        run_seq(lhu.sequence_64_spec().take(4), st).fault is None,
        run_seq(lhu.sequence_64_spec().take(4), st).state == (State {
            regs: st.regs.update(38, ea).update(39, wa).update(40, w),
            xlen: st.xlen,
            mem: st.mem,
        }),
    ensures
        ({
            let s = lhu.sequence_64_spec();
            let r4 = run_seq(s.take(4), st);
            let r6 = run_seq(s.take(6), st);
            &&& r6.fault is None
            &&& r6.state == State {
                regs: st.regs.update(38, ea).update(39, wa).update(40, w).update(41, sh1).update(
                    41,
                    sh2,
                ),
                xlen: st.xlen,
                mem: st.mem,
            }
            &&& r6.cycles == r4.cycles.push(
                Cycle {
                    instruction: s[4],
                    ram_access: None,
                    register_write: Some(RegisterWrite { register: 41u8, value: sh1 }),
                },
            ).push(
                Cycle {
                    instruction: s[5],
                    ram_access: None,
                    register_write: Some(RegisterWrite { register: 41u8, value: sh2 }),
                },
            )
        }),
{
    let s = lhu.sequence_64_spec();
    let x = Xlen::Bit64;
    let regs3 = st.regs.update(38, ea).update(39, wa).update(40, w);
    let r4 = run_seq(s.take(4), st);
    assert(regs3[38] == ea);
    lemma_run_step(s, st, 4);
    let out4 = step_spec(s[4], r4.state);
    let regs4 = regs3.update(41, sh1);
    assert(out4.fault is None && out4.state.regs == regs4 && out4.state.xlen == st.xlen
        && out4.state.mem == st.mem && out4.access is None && out4.write == Some(
        RegisterWrite { register: 41u8, value: sh1 },
    ));
    let r5 = run_seq(s.take(5), st);
    assert(regs4[41] == sh1);
    lemma_run_step(s, st, 5);
    let out5 = step_spec(s[5], r5.state);
    assert(out5.fault is None && out5.state.regs == regs4.update(41, sh2) && out5.state.xlen
        == st.xlen && out5.state.mem == st.mem && out5.access is None && out5.write == Some(
        RegisterWrite { register: 41u8, value: sh2 },
    ));
    let r6 = run_seq(s.take(6), st);
    assert(r6.state =~= State { regs: regs4.update(41, sh2), xlen: st.xlen, mem: st.mem });
}

/// Steps 6 and 7 of the 64-bit expansion: shift the loaded word into place
/// and zero-extend into the destination register.
#[verifier::rlimit(100)]
proof fn lemma_lhu_64_steps67(lhu: LHU, st: State, ea: u64, wa: u64, w: u64, sh1: u64, sh2: u64, v6: u64, res: u64)
    requires
        st.regs.len() == crate::format::TOTAL_REGISTER_COUNT,
        st.regs[0] == 0,
        st.xlen == Xlen::Bit64,
        lhu.operands.rd < REGISTER_COUNT,
        lhu.operands.rs1 < REGISTER_COUNT,
        (w << (sh2 & 63)) & 0xFFFF_FFFF_FFFF_FFFFu64 == v6,
        v6 & 0xFFFF_FFFF_FFFF_FFFFu64 == v6,
        (v6 >> (48u64 & 63)) & 0xFFFF_FFFF_FFFF_FFFFu64 == res,
        (0u64 >> (48u64 & 63)) & 0xFFFF_FFFF_FFFF_FFFFu64 == 0,
        run_seq(lhu.sequence_64_spec().take(6), st).fault is None,
        run_seq(lhu.sequence_64_spec().take(6), st).state == (State {
            regs: st.regs.update(38, ea).update(39, wa).update(40, w).update(41, sh1).update(
                41,
                sh2,
            ),
            xlen: st.xlen,
            mem: st.mem,
        }),
    ensures
        ({
            let s = lhu.sequence_64_spec();
            let rd = lhu.operands.rd;
            let r6 = run_seq(s.take(6), st);
            let r8 = run_seq(s.take(8), st);
            let regs5 = st.regs.update(38, ea).update(39, wa).update(40, w).update(41, sh1).update(
                41,
                sh2,
            );
            &&& r8.fault is None
            &&& r8.state == State {
                regs: (if rd == 0 {
                    regs5
                } else {
                    regs5.update(rd as int, v6).update(rd as int, res)
                }),
                xlen: st.xlen,
                mem: st.mem,
            }
            &&& r8.cycles == r6.cycles.push(
                Cycle {
                    instruction: s[6],
                    ram_access: None,
                    register_write: if rd == 0 {
                        None
                    } else {
                        Some(RegisterWrite { register: rd, value: v6 })
                    },
                },
            ).push(
                Cycle {
                    instruction: s[7],
                    ram_access: None,
                    register_write: if rd == 0 {
                        None
                    } else {
                        Some(RegisterWrite { register: rd, value: res })
                    },
                },
            )
        }),
{
    let s = lhu.sequence_64_spec();
    let x = Xlen::Bit64;
    let rd = lhu.operands.rd;
    let regs5 = st.regs.update(38, ea).update(39, wa).update(40, w).update(41, sh1).update(
        41,
        sh2,
    );
    let r6 = run_seq(s.take(6), st);
    assert(regs5[40] == w && regs5[41] == sh2);
    lemma_run_step(s, st, 6);
    let out6 = step_spec(s[6], r6.state);
    let regs6 = if rd == 0 {
        regs5
    } else {
        regs5.update(rd as int, v6)
    };
    assert(out6.fault is None && out6.state.regs == regs6 && out6.state.xlen == st.xlen
        && out6.state.mem == st.mem && out6.access is None && out6.write == (if rd == 0 {
        None
    } else {
        Some(RegisterWrite { register: rd, value: v6 })
    }));
    let r7 = run_seq(s.take(7), st);
    assert(rd != 0 ==> regs6[rd as int] == v6);
    assert(rd == 0 ==> regs6[rd as int] == 0);
    lemma_run_step(s, st, 7);
    let out7 = step_spec(s[7], r7.state);
    let regs7 = if rd == 0 {
        regs6
    } else {
        regs6.update(rd as int, res)
    };
    assert(out7.fault is None && out7.state.regs == regs7 && out7.state.xlen == st.xlen
        && out7.state.mem == st.mem && out7.access is None && out7.write == (if rd == 0 {
        None
    } else {
        Some(RegisterWrite { register: rd, value: res })
    }));
    let r8 = run_seq(s.take(8), st);
    assert(r8.state =~= State { regs: regs7, xlen: st.xlen, mem: st.mem });
}



/// Running the full 32-bit sequence, assembled from its four two-step parts.
#[verifier::rlimit(100)]
proof fn lemma_lhu_32_assemble(lhu: LHU, st: State, ea: u64, wa: u64, w: u64, sh1: u64, sh2: u64, v6: u64, res: u64)
    requires
        st.regs.len() == crate::format::TOTAL_REGISTER_COUNT,
        st.regs[0] == 0,
        st.xlen == Xlen::Bit32,
        lhu.operands.rd < REGISTER_COUNT,
        lhu.operands.rs1 < REGISTER_COUNT,
        ea == wrap_add(st.regs[lhu.operands.rs1 as int], lhu.operands.imm) & 0xFFFF_FFFFu64,
        ea % 2 == 0,
        wa == (ea & 0xFFFF_FFFF_FFFF_FFFCu64) & 0xFFFF_FFFFu64,
        wa % 4 == 0,
        wrap_add(wa, 0) & 0xFFFF_FFFFu64 == wa,
        w == word_at(st.mem, wa) as u64,
        w & 0xFFFF_FFFFu64 == w,
        sh1 == (ea ^ 2) & 0xFFFF_FFFFu64,
        sh2 == ((ea ^ 2) << 3) & 0xFFFF_FFFFu64,
        (sh1 << (3u64 & 31)) & 0xFFFF_FFFFu64 == sh2,
        v6 == (w << (sh2 & 31)) & 0xFFFF_FFFFu64,
        v6 & 0xFFFF_FFFFu64 == v6,
        res == v6 >> 16,
        (v6 >> (16u64 & 31)) & 0xFFFF_FFFFu64 == res,
        (0u64 >> (16u64 & 31)) & 0xFFFF_FFFFu64 == 0,
    ensures
        run_seq(lhu.sequence_32_spec(), st) == lhu_expected_32(lhu, st),
{
    let s = lhu.sequence_32_spec();
    let expected = lhu_expected_32(lhu, st);
    lemma_lhu_32_steps01(lhu, st, ea);
    lemma_lhu_32_steps23(lhu, st, ea, wa, w);
    lemma_lhu_32_steps45(lhu, st, ea, wa, w, sh1, sh2);
    lemma_lhu_32_steps67(lhu, st, ea, wa, w, sh1, sh2, v6, res);
    let r8 = run_seq(s.take(8), st);
    assert(s.take(8) =~= s);
    assert(r8.state.regs =~= expected.state.regs);
    assert(r8.state =~= expected.state);
    assert(r8.cycles =~= expected.cycles);
    assert(run_seq(s, st) =~= expected);
}


/// Running the full 64-bit sequence, assembled from its four two-step parts.
#[verifier::rlimit(100)]
proof fn lemma_lhu_64_assemble(lhu: LHU, st: State, ea: u64, wa: u64, w: u64, sh1: u64, sh2: u64, v6: u64, res: u64)
    requires
        st.regs.len() == crate::format::TOTAL_REGISTER_COUNT,
        st.regs[0] == 0,
        st.xlen == Xlen::Bit64,
        lhu.operands.rd < REGISTER_COUNT,
        lhu.operands.rs1 < REGISTER_COUNT,
        ea == wrap_add(st.regs[lhu.operands.rs1 as int], lhu.operands.imm) & 0xFFFF_FFFF_FFFF_FFFFu64,
        ea % 2 == 0,
        wa == (ea & 0xFFFF_FFFF_FFFF_FFF8u64) & 0xFFFF_FFFF_FFFF_FFFFu64,
        wa % 8 == 0,
        wrap_add(wa, 0) & 0xFFFF_FFFF_FFFF_FFFFu64 == wa,
        w == dword_at(st.mem, wa),
        w & 0xFFFF_FFFF_FFFF_FFFFu64 == w,
        sh1 == (ea ^ 6) & 0xFFFF_FFFF_FFFF_FFFFu64,
        sh2 == ((ea ^ 6) << 3) & 0xFFFF_FFFF_FFFF_FFFFu64,
        (sh1 << (3u64 & 63)) & 0xFFFF_FFFF_FFFF_FFFFu64 == sh2,
        v6 == (w << (sh2 & 63)) & 0xFFFF_FFFF_FFFF_FFFFu64,
        v6 & 0xFFFF_FFFF_FFFF_FFFFu64 == v6,
        res == v6 >> 48,
        (v6 >> (48u64 & 63)) & 0xFFFF_FFFF_FFFF_FFFFu64 == res,
        (0u64 >> (48u64 & 63)) & 0xFFFF_FFFF_FFFF_FFFFu64 == 0,
    ensures
        run_seq(lhu.sequence_64_spec(), st) == lhu_expected_64(lhu, st),
{
    let s = lhu.sequence_64_spec();
    let expected = lhu_expected_64(lhu, st);
    lemma_lhu_64_steps01(lhu, st, ea);
    lemma_lhu_64_steps23(lhu, st, ea, wa, w);
    lemma_lhu_64_steps45(lhu, st, ea, wa, w, sh1, sh2);
    lemma_lhu_64_steps67(lhu, st, ea, wa, w, sh1, sh2, v6, res);
    let r8 = run_seq(s.take(8), st);
    assert(s.take(8) =~= s);
    assert(r8.state.regs =~= expected.state.regs);
    assert(r8.state =~= expected.state);
    assert(r8.cycles =~= expected.cycles);
    assert(run_seq(s, st) =~= expected);
}

/// Characterization of the 32-bit expansion: running the virtual sequence
/// realizes exactly the expected outcome, and the destination register ends
/// with the very half-word the direct reference semantics loads.
#[verifier::rlimit(100)]
pub proof fn lemma_lhu_expansion_32(lhu: LHU, st: State)
    requires
        st.regs.len() == crate::format::TOTAL_REGISTER_COUNT,
        st.regs[0] == 0,
        st.xlen == Xlen::Bit32,
        lhu.operands.rd < REGISTER_COUNT,
        lhu.operands.rs1 < REGISTER_COUNT,
    ensures
        run_seq(lhu.sequence_32_spec(), st) == lhu_expected_32(lhu, st),
        ({
            let base = st.regs[lhu.operands.rs1 as int];
            let ea = wrap_add(base, lhu.operands.imm) & 0xFFFF_FFFFu64;
            ea % 2 == 0 ==> lhu_expected_32(lhu, st).state.regs[lhu.operands.rd as int] == (
            if lhu.operands.rd == 0 {
                0u64
            } else {
                half_at(st.mem, ea) as u64
            })
        }),
{
    let s = lhu.sequence_32_spec();
    let rd = lhu.operands.rd;
    let ops = lhu.operands;
    let base = st.regs[ops.rs1 as int];
    let x = Xlen::Bit32;
    let easum = wrap_add(base, ops.imm);
    let ea = easum & 0xFFFF_FFFFu64;
    assert(norm(x, wrap_add(base, ops.imm)) == ea);
    let expected = lhu_expected_32(lhu, st);

    if ea % 2 != 0 {
        assert(s.take(0) =~= Seq::<Instruction>::empty());
        let r0 = run_seq(s.take(0), st);
        assert(r0.state == st && r0.cycles == Seq::<Cycle>::empty() && r0.fault is None);
        lemma_run_step(s, st, 0);
        let out0 = step_spec(s[0], st);
        assert(out0.fault == Some(
            Fault::ArchitecturalMisalignment { address: lhu.address, target: ea },
        ));
        let r1 = run_seq(s.take(1), st);
        assert(r1.state == st && r1.cycles == Seq::<Cycle>::empty() && r1.fault == out0.fault);
        lemma_run_fault_stable(s, st, 1);
        assert(run_seq(s, st).cycles =~= expected.cycles);
        assert(run_seq(s, st) =~= expected);
    } else {
        let wa = (ea & 0xFFFF_FFFF_FFFF_FFFCu64) & 0xFFFF_FFFFu64;
        let wv: u32 = word_at(st.mem, wa);
        let w = wv as u64;
        let sh1 = (ea ^ 2) & 0xFFFF_FFFFu64;
        let sh2 = ((ea ^ 2) << 3) & 0xFFFF_FFFFu64;
        let v6 = (w << (sh2 & 31)) & 0xFFFF_FFFFu64;
        let res = v6 >> 16;
        let wb0 = byte_at(st.mem, wa);
        let wb1 = byte_at(st.mem, wrap_add(wa, 1));
        let wb2 = byte_at(st.mem, wrap_add(wa, 2));
        let wb3 = byte_at(st.mem, wrap_add(wa, 3));
        let hb0 = byte_at(st.mem, ea);
        let hb1 = byte_at(st.mem, wrap_add(ea, 1));
        let h: u16 = half_at(st.mem, ea);
        reveal(crate::mmu::word_at);
        reveal(crate::mmu::half_at);

        // address geometry of the containing aligned word
        assert((ea & 3 == 0 || ea & 3 == 2) && wa % 4 == 0 && wrap_add(wa, 0) & 0xFFFF_FFFFu64
            == wa && (ea & 3 == 0 ==> ea == wa && wrap_add(ea, 1) == wrap_add(wa, 1)) && (ea & 3
            == 2 ==> ea == wrap_add(wa, 2) && wrap_add(ea, 1) == wrap_add(wa, 3))) by (bit_vector)
            requires
                ea == easum & 0xFFFF_FFFFu64,
                ea % 2 == 0,
                wa == (ea & 0xFFFF_FFFF_FFFF_FFFCu64) & 0xFFFF_FFFFu64,
        ;
        if ea & 3 == 0 {
            assert(hb0 == wb0 && hb1 == wb1);
        } else {
            assert(hb0 == wb2 && hb1 == wb3);
        }

        // the little-endian shift trick and the normalization facts
        assert((sh1 << (3u64 & 31)) & 0xFFFF_FFFFu64 == sh2 && w & 0xFFFF_FFFFu64 == w && (v6 >> (
        16u64 & 31)) & 0xFFFF_FFFFu64 == res && v6 & 0xFFFF_FFFFu64 == v6 && res == h as u64 && (
        0u64 >> (16u64 & 31)) & 0xFFFF_FFFFu64 == 0) by (bit_vector)
            requires
                ea == easum & 0xFFFF_FFFFu64,
                ea % 2 == 0,
                wa == (ea & 0xFFFF_FFFF_FFFF_FFFCu64) & 0xFFFF_FFFFu64,
                w == ((wb0 as u32) | ((wb1 as u32) << 8) | ((wb2 as u32) << 16) | ((wb3
                    as u32) << 24)) as u64,
                h == (hb0 as u16) | ((hb1 as u16) << 8),
                (ea & 3 == 0 ==> hb0 == wb0 && hb1 == wb1),
                (ea & 3 == 2 ==> hb0 == wb2 && hb1 == wb3),
                (ea & 3 == 0 || ea & 3 == 2),
                sh1 == (ea ^ 2) & 0xFFFF_FFFFu64,
                sh2 == ((ea ^ 2) << 3) & 0xFFFF_FFFFu64,
                v6 == (w << (sh2 & 31)) & 0xFFFF_FFFFu64,
                res == v6 >> 16,
        ;

        lemma_lhu_32_assemble(lhu, st, ea, wa, w, sh1, sh2, v6, res);
    }
}

/// Characterization of the 64-bit expansion.
#[verifier::rlimit(100)]
pub proof fn lemma_lhu_expansion_64(lhu: LHU, st: State)
    requires
        st.regs.len() == crate::format::TOTAL_REGISTER_COUNT,
        st.regs[0] == 0,
        st.xlen == Xlen::Bit64,
        lhu.operands.rd < REGISTER_COUNT,
        lhu.operands.rs1 < REGISTER_COUNT,
    ensures
        run_seq(lhu.sequence_64_spec(), st) == lhu_expected_64(lhu, st),
        ({
            let base = st.regs[lhu.operands.rs1 as int];
            let ea = wrap_add(base, lhu.operands.imm) & 0xFFFF_FFFF_FFFF_FFFFu64;
            ea % 2 == 0 ==> lhu_expected_64(lhu, st).state.regs[lhu.operands.rd as int] == (
            if lhu.operands.rd == 0 {
                0u64
            } else {
                half_at(st.mem, ea) as u64
            })
        }),
{
    let s = lhu.sequence_64_spec();
    let rd = lhu.operands.rd;
    let ops = lhu.operands;
    let base = st.regs[ops.rs1 as int];
    let x = Xlen::Bit64;
    let easum = wrap_add(base, ops.imm);
    let ea = easum & 0xFFFF_FFFF_FFFF_FFFFu64;
    assert(norm(x, wrap_add(base, ops.imm)) == ea);
    let expected = lhu_expected_64(lhu, st);

    if ea % 2 != 0 {
        assert(s.take(0) =~= Seq::<Instruction>::empty());
        let r0 = run_seq(s.take(0), st);
        assert(r0.state == st && r0.cycles == Seq::<Cycle>::empty() && r0.fault is None);
        lemma_run_step(s, st, 0);
        let out0 = step_spec(s[0], st);
        assert(out0.fault == Some(
            Fault::ArchitecturalMisalignment { address: lhu.address, target: ea },
        ));
        let r1 = run_seq(s.take(1), st);
        assert(r1.state == st && r1.cycles == Seq::<Cycle>::empty() && r1.fault == out0.fault);
        lemma_run_fault_stable(s, st, 1);
        assert(run_seq(s, st).cycles =~= expected.cycles);
        assert(run_seq(s, st) =~= expected);
    } else {
        let wa = (ea & 0xFFFF_FFFF_FFFF_FFF8u64) & 0xFFFF_FFFF_FFFF_FFFFu64;
        let w = dword_at(st.mem, wa);
        let sh1 = (ea ^ 6) & 0xFFFF_FFFF_FFFF_FFFFu64;
        let sh2 = ((ea ^ 6) << 3) & 0xFFFF_FFFF_FFFF_FFFFu64;
        let v6 = (w << (sh2 & 63)) & 0xFFFF_FFFF_FFFF_FFFFu64;
        let res = v6 >> 48;
        let wb0 = byte_at(st.mem, wa);
        let wb1 = byte_at(st.mem, wrap_add(wa, 1));
        let wb2 = byte_at(st.mem, wrap_add(wa, 2));
        let wb3 = byte_at(st.mem, wrap_add(wa, 3));
        let wb4 = byte_at(st.mem, wrap_add(wa, 4));
        let wb5 = byte_at(st.mem, wrap_add(wa, 5));
        let wb6 = byte_at(st.mem, wrap_add(wa, 6));
        let wb7 = byte_at(st.mem, wrap_add(wa, 7));
        let hb0 = byte_at(st.mem, ea);
        let hb1 = byte_at(st.mem, wrap_add(ea, 1));
        let h: u16 = half_at(st.mem, ea);
        reveal(crate::mmu::dword_at);
        reveal(crate::mmu::half_at);

        // address geometry of the containing aligned double word
        assert((ea & 7 == 0 || ea & 7 == 2 || ea & 7 == 4 || ea & 7 == 6) && wa % 8 == 0
            && wrap_add(wa, 0) & 0xFFFF_FFFF_FFFF_FFFFu64 == wa && (ea & 7 == 0 ==> ea == wa
            && wrap_add(ea, 1) == wrap_add(wa, 1)) && (ea & 7 == 2 ==> ea == wrap_add(wa, 2)
            && wrap_add(ea, 1) == wrap_add(wa, 3)) && (ea & 7 == 4 ==> ea == wrap_add(wa, 4)
            && wrap_add(ea, 1) == wrap_add(wa, 5)) && (ea & 7 == 6 ==> ea == wrap_add(wa, 6)
            && wrap_add(ea, 1) == wrap_add(wa, 7))) by (bit_vector)
            requires
                ea == easum & 0xFFFF_FFFF_FFFF_FFFFu64,
                ea % 2 == 0,
                wa == (ea & 0xFFFF_FFFF_FFFF_FFF8u64) & 0xFFFF_FFFF_FFFF_FFFFu64,
        ;
        if ea & 7 == 0 {
            assert(hb0 == wb0 && hb1 == wb1);
        } else if ea & 7 == 2 {
            assert(hb0 == wb2 && hb1 == wb3);
        } else if ea & 7 == 4 {
            assert(hb0 == wb4 && hb1 == wb5);
        } else {
            assert(hb0 == wb6 && hb1 == wb7);
        }

        // the little-endian shift trick and the normalization facts
        assert((sh1 << (3u64 & 63)) & 0xFFFF_FFFF_FFFF_FFFFu64 == sh2 && w
            & 0xFFFF_FFFF_FFFF_FFFFu64 == w && (v6 >> (48u64 & 63)) & 0xFFFF_FFFF_FFFF_FFFFu64
            == res && v6 & 0xFFFF_FFFF_FFFF_FFFFu64 == v6 && res == h as u64 && (0u64 >> (48u64
            & 63)) & 0xFFFF_FFFF_FFFF_FFFFu64 == 0) by (bit_vector)
            requires
                ea == easum & 0xFFFF_FFFF_FFFF_FFFFu64,
                ea % 2 == 0,
                wa == (ea & 0xFFFF_FFFF_FFFF_FFF8u64) & 0xFFFF_FFFF_FFFF_FFFFu64,
                w == (wb0 as u64) | ((wb1 as u64) << 8) | ((wb2 as u64) << 16) | ((wb3
                    as u64) << 24) | ((wb4 as u64) << 32) | ((wb5 as u64) << 40) | ((wb6
                    as u64) << 48) | ((wb7 as u64) << 56),
                h == (hb0 as u16) | ((hb1 as u16) << 8),
                (ea & 7 == 0 ==> hb0 == wb0 && hb1 == wb1),
                (ea & 7 == 2 ==> hb0 == wb2 && hb1 == wb3),
                (ea & 7 == 4 ==> hb0 == wb4 && hb1 == wb5),
                (ea & 7 == 6 ==> hb0 == wb6 && hb1 == wb7),
                (ea & 7 == 0 || ea & 7 == 2 || ea & 7 == 4 || ea & 7 == 6),
                sh1 == (ea ^ 6) & 0xFFFF_FFFF_FFFF_FFFFu64,
                sh2 == ((ea ^ 6) << 3) & 0xFFFF_FFFF_FFFF_FFFFu64,
                v6 == (w << (sh2 & 63)) & 0xFFFF_FFFF_FFFF_FFFFu64,
                res == v6 >> 48,
        ;

        lemma_lhu_64_assemble(lhu, st, ea, wa, w, sh1, sh2, v6, res);
    }
}


proof fn lemma_half_norm(h: u16)
    by (bit_vector)
    ensures
        (h as u64) & 0xFFFF_FFFFu64 == h as u64,
        (h as u64) & 0xFFFF_FFFF_FFFF_FFFFu64 == h as u64,
{
}

/// Equivalence of expansion: for every half-word load and every valid input,
/// in both width modes, running the full virtual sequence leaves the
/// destination register with exactly the value the direct single-step
/// reference semantics produces, faults exactly when the direct semantics
/// faults, and leaves memory untouched.
pub proof fn lemma_expansion_equivalence(lhu: LHU, st: State)
    requires
        state_wf(st),
        lhu.operands.rd < REGISTER_COUNT,
        lhu.operands.rs1 < REGISTER_COUNT,
    ensures
        ({
            let run = run_seq(lhu.sequence_spec(st.xlen), st);
            let direct = step_spec(Instruction::Lhu(lhu), st);
            &&& (run.fault is None <==> direct.fault is None)
            &&& run.state.mem == st.mem
            &&& direct.state.mem == st.mem
            &&& (run.fault is None ==> run.state.regs[lhu.operands.rd as int]
                == direct.state.regs[lhu.operands.rd as int])
            &&& (run.fault is Some ==> run.state == st && direct.state == st)
        }),
{
    let rd = lhu.operands.rd;
    let base = st.regs[lhu.operands.rs1 as int];
    let direct = step_spec(Instruction::Lhu(lhu), st);
    match st.xlen {
        Xlen::Bit32 => {
            lemma_lhu_expansion_32(lhu, st);
            let ea = wrap_add(base, lhu.operands.imm) & 0xFFFF_FFFFu64;
            assert(norm(st.xlen, wrap_add(base, lhu.operands.imm)) == ea);
            if ea % 2 == 0 && rd != 0 {
                lemma_half_norm(half_at(st.mem, ea));
            }
        },
        Xlen::Bit64 => {
            lemma_lhu_expansion_64(lhu, st);
            let ea = wrap_add(base, lhu.operands.imm) & 0xFFFF_FFFF_FFFF_FFFFu64;
            assert(norm(st.xlen, wrap_add(base, lhu.operands.imm)) == ea);
            if ea % 2 == 0 && rd != 0 {
                lemma_half_norm(half_at(st.mem, ea));
            }
        },
    }
}

/// Monotonic countdown: in both width modes the expansion has exactly eight
/// steps, step k carrying `virtual_sequence_remaining` 7 - k: the counter
/// strictly decreases and is exactly 0 at the last step. Every step also
/// carries the macro-instruction's own program address.
pub proof fn lemma_sequence_countdown(lhu: LHU, xlen: Xlen)
    ensures
        lhu.sequence_spec(xlen).len() == 8,
        forall|k: int|
            0 <= k < 8 ==> (#[trigger] lhu.sequence_spec(xlen)[k]).spec_remaining() == Some(
                (7 - k) as u8,
            ),
        forall|k: int|
            0 <= k < 8 ==> (#[trigger] lhu.sequence_spec(xlen)[k]).spec_address() == lhu.address,
{
    let s = lhu.sequence_spec(xlen);
    assert forall|k: int| 0 <= k < 8 implies (#[trigger] s[k]).spec_remaining() == Some(
        (7 - k) as u8,
    ) && (#[trigger] s[k]).spec_address() == lhu.address by {
        assert(s[0].spec_remaining() == Some(7u8));
        assert(s[1].spec_remaining() == Some(6u8));
        assert(s[2].spec_remaining() == Some(5u8));
        assert(s[3].spec_remaining() == Some(4u8));
        assert(s[4].spec_remaining() == Some(3u8));
        assert(s[5].spec_remaining() == Some(2u8));
        assert(s[6].spec_remaining() == Some(1u8));
        assert(s[7].spec_remaining() == Some(0u8));
    }
}

/// No cross-sequence leakage: the whole outcome of an expansion (its fault,
/// its recorded cycles and the destination value) is a function of the base
/// register value, the memory contents and the width mode alone. In
/// particular nothing of the virtual scratch state of an earlier run is
/// observable: running the same macro-instruction twice in succession with
/// identical inputs yields identical outputs.
pub proof fn lemma_no_cross_sequence_leakage(lhu: LHU, st1: State, st2: State)
    requires
        state_wf(st1),
        state_wf(st2),
        st1.xlen == st2.xlen,
        st1.regs[lhu.operands.rs1 as int] == st2.regs[lhu.operands.rs1 as int],
        st1.mem == st2.mem,
        lhu.operands.rd < REGISTER_COUNT,
        lhu.operands.rs1 < REGISTER_COUNT,
    ensures
        ({
            let r1 = run_seq(lhu.sequence_spec(st1.xlen), st1);
            let r2 = run_seq(lhu.sequence_spec(st2.xlen), st2);
            &&& r1.fault == r2.fault
            &&& r1.cycles == r2.cycles
            &&& (r1.fault is None ==> r1.state.regs[lhu.operands.rd as int]
                == r2.state.regs[lhu.operands.rd as int])
        }),
{
    match st1.xlen {
        Xlen::Bit32 => {
            lemma_lhu_expansion_32(lhu, st1);
            lemma_lhu_expansion_32(lhu, st2);
            let e1 = lhu_expected_32(lhu, st1);
            let e2 = lhu_expected_32(lhu, st2);
            assert(e1.cycles =~= e2.cycles);
        },
        Xlen::Bit64 => {
            lemma_lhu_expansion_64(lhu, st1);
            lemma_lhu_expansion_64(lhu, st2);
            let e1 = lhu_expected_64(lhu, st1);
            let e2 = lhu_expected_64(lhu, st2);
            assert(e1.cycles =~= e2.cycles);
        },
    }
}

/// Fault precedence: the architectural alignment check is the first step of
/// the expansion, and on a misaligned effective address the run raises
/// exactly that fault before any state change, memory access or recorded
/// cycle; on an aligned address no step of the run faults at all.
pub proof fn lemma_fault_precedence(lhu: LHU, st: State)
    requires
        state_wf(st),
        lhu.operands.rd < REGISTER_COUNT,
        lhu.operands.rs1 < REGISTER_COUNT,
    ensures
        ({
            let s = lhu.sequence_spec(st.xlen);
            let run = run_seq(s, st);
            let ea = crate::step::effective_address(st, lhu.operands.rs1, lhu.operands.imm);
            &&& (s[0] matches Instruction::VirtualAssertHalfwordAlign(_))
            &&& (ea % 2 != 0 ==> run == RunSpec {
                state: st,
                cycles: Seq::empty(),
                fault: Some(
                    Fault::ArchitecturalMisalignment { address: lhu.address, target: ea },
                ),
            })
            &&& (ea % 2 == 0 ==> run.fault is None)
        }),
{
    let base = st.regs[lhu.operands.rs1 as int];
    match st.xlen {
        Xlen::Bit32 => {
            lemma_lhu_expansion_32(lhu, st);
            assert(norm(st.xlen, wrap_add(base, lhu.operands.imm)) == wrap_add(
                base,
                lhu.operands.imm,
            ) & 0xFFFF_FFFFu64);
        },
        Xlen::Bit64 => {
            lemma_lhu_expansion_64(lhu, st);
            assert(norm(st.xlen, wrap_add(base, lhu.operands.imm)) == wrap_add(
                base,
                lhu.operands.imm,
            ) & 0xFFFF_FFFF_FFFF_FFFFu64);
        },
    }
}

/// Trace/no-trace equivalence: for every instruction, tracing (which runs
/// the expansion) and direct execution fault alike, leave the same memory,
/// and agree on every architectural register; only virtual scratch registers
/// may differ. With the recorder's own contract (an inactive sink changes
/// nothing), runs with tracing enabled and disabled end in the same state.
pub proof fn lemma_execute_trace_equivalence(i: Instruction, st: State)
    requires
        state_wf(st),
        (i matches Instruction::Lhu(l) ==> l.operands.rd < REGISTER_COUNT && l.operands.rs1
            < REGISTER_COUNT),
    ensures
        ({
            let run = run_seq(crate::expand::expansion(i, st.xlen), st);
            let direct = step_spec(i, st);
            &&& (run.fault is None <==> direct.fault is None)
            &&& run.state.mem == direct.state.mem
            &&& (run.fault is None ==> forall|j: int|
                0 <= j < REGISTER_COUNT ==> run.state.regs[j] == direct.state.regs[j])
        }),
{
    match i {
        Instruction::Lhu(l) => {
            lemma_expansion_equivalence(l, st);
            let run = run_seq(l.sequence_spec(st.xlen), st);
            let direct = step_spec(i, st);
            if run.fault is None {
                match st.xlen {
                    Xlen::Bit32 => {
                        lemma_lhu_expansion_32(l, st);
                    },
                    Xlen::Bit64 => {
                        lemma_lhu_expansion_64(l, st);
                    },
                }
                assert forall|j: int| 0 <= j < REGISTER_COUNT implies run.state.regs[j]
                    == direct.state.regs[j] by {
                    if j != l.operands.rd {
                        assert(run.state.regs[j] == st.regs[j]);
                        assert(direct.state.regs[j] == st.regs[j]);
                    }
                }
            }
        },
        _ => {
            let s = crate::expand::expansion(i, st.xlen);
            assert(s =~= seq![i]);
            assert(s.drop_last() =~= Seq::<Instruction>::empty());
            assert(s.last() == i);
            let init = run_seq(Seq::<Instruction>::empty(), st);
            assert(init.state == st && init.fault is None);
        },
    }
}

} // verus!
