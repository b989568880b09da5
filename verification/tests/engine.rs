use tracer::cpu::Cpu;
use tracer::fault::{Fault, MemWidth};
use tracer::format::{FormatLoad, virtual_register_index};
use tracer::instr::{decode, encode_addi, encode_lhu, encode_sll, Instruction, LHU};
use tracer::trace::Trace;
use tracer::xlen::Xlen;

fn lhu(rd: u8, rs1: u8, imm: u64) -> LHU {
    LHU {
        address: 0x8000_0000,
        operands: FormatLoad { rd, rs1, imm },
        virtual_sequence_remaining: None,
        is_compressed: false,
    }
}

fn setup_32() -> Cpu {
    let mut cpu = Cpu::new(Xlen::Bit32);
    cpu.write_register(1, 0x1000);
    cpu.mmu.store_byte(0x1000, 0xCD);
    cpu.mmu.store_byte(0x1001, 0xAB);
    cpu.mmu.store_byte(0x1002, 0x34);
    cpu.mmu.store_byte(0x1003, 0x12);
    cpu
}

#[test]
fn halfword_load_aligned_word_base_offset_two() {
    // base 0x1000 (word-aligned), imm 2, little-endian word CD AB 34 12:
    // the half-word at 0x1002 is 0x1234.
    let mut cpu = setup_32();
    let mut sink = Trace::new(true);
    let i = Instruction::Lhu(lhu(5, 1, 2));
    let r = i.trace(&mut cpu, &mut sink);
    assert!(r.is_ok());
    assert_eq!(cpu.read_register(5), 0x1234);
    assert_eq!(sink.len(), 8);
}

#[test]
fn halfword_load_low_half() {
    let mut cpu = setup_32();
    let mut sink = Trace::new(true);
    let i = Instruction::Lhu(lhu(5, 1, 0));
    assert!(i.trace(&mut cpu, &mut sink).is_ok());
    assert_eq!(cpu.read_register(5), 0xABCD);
}

#[test]
fn halfword_load_odd_address_faults_before_any_access() {
    // imm 1 gives an odd effective address: the architectural alignment
    // check, first step of the expansion, must fault with nothing recorded
    // and nothing written.
    let mut cpu = setup_32();
    let mut sink = Trace::new(true);
    let i = Instruction::Lhu(lhu(5, 1, 1));
    let r = i.trace(&mut cpu, &mut sink);
    assert_eq!(
        r,
        Err(Fault::ArchitecturalMisalignment { address: 0x8000_0000, target: 0x1001 })
    );
    assert_eq!(sink.len(), 0);
    assert_eq!(cpu.read_register(5), 0);
    assert_eq!(cpu.read_register(virtual_register_index(0)), 0);
}

#[test]
fn halfword_load_64_bit_mode() {
    let mut cpu = Cpu::new(Xlen::Bit64);
    cpu.write_register(1, 0x2000);
    let bytes = [0x11u8, 0x22, 0x33, 0x44, 0x55, 0x66, 0x77, 0x88];
    let mut a = 0x2000u64;
    for b in bytes {
        cpu.mmu.store_byte(a, b);
        a += 1;
    }
    let mut sink = Trace::new(true);
    // offset 6: bytes 77 88 -> 0x8877
    let i = Instruction::Lhu(lhu(9, 1, 6));
    assert!(i.trace(&mut cpu, &mut sink).is_ok());
    assert_eq!(cpu.read_register(9), 0x8877);
    assert_eq!(sink.len(), 8);
}

#[test]
fn countdown_strictly_decreases_to_zero_in_both_modes() {
    let l = lhu(5, 1, 2);
    for xlen in [Xlen::Bit32, Xlen::Bit64] {
        let seq = l.virtual_sequence(xlen);
        assert_eq!(seq.len(), 8);
        for (k, instr) in seq.iter().enumerate() {
            assert_eq!(instr.virtual_sequence_remaining(), Some(7 - k as u8));
        }
    }
}

#[test]
fn trace_enabled_and_disabled_agree_on_state() {
    let mut cpu_a = setup_32();
    let mut cpu_b = setup_32();
    let mut on = Trace::new(true);
    let mut off = Trace::new(false);
    let i = Instruction::Lhu(lhu(5, 1, 2));
    assert!(i.trace(&mut cpu_a, &mut on).is_ok());
    assert!(i.trace(&mut cpu_b, &mut off).is_ok());
    assert_eq!(cpu_a.x, cpu_b.x);
    assert_eq!(on.len(), 8);
    assert_eq!(off.len(), 0);
}

#[test]
fn execute_and_trace_agree_on_architectural_registers() {
    let mut cpu_a = setup_32();
    let mut cpu_b = setup_32();
    let mut sink = Trace::new(true);
    let i = Instruction::Lhu(lhu(5, 1, 2));
    assert!(i.execute(&mut cpu_a).is_ok());
    assert!(i.trace(&mut cpu_b, &mut sink).is_ok());
    for j in 0..32u8 {
        assert_eq!(cpu_a.read_register(j), cpu_b.read_register(j));
    }
}

#[test]
fn same_load_twice_yields_identical_outputs() {
    let mut cpu = setup_32();
    let mut sink = Trace::new(true);
    let i = Instruction::Lhu(lhu(5, 1, 2));
    assert!(i.trace(&mut cpu, &mut sink).is_ok());
    let first = cpu.read_register(5);
    let first_cycles = sink.cycles().clone();
    assert!(i.trace(&mut cpu, &mut sink).is_ok());
    assert_eq!(cpu.read_register(5), first);
    assert_eq!(sink.len(), 16);
    assert_eq!(&sink.cycles()[8..], &first_cycles[..]);
}

#[test]
fn destination_x0_stays_zero() {
    let mut cpu = setup_32();
    let mut sink = Trace::new(true);
    let i = Instruction::Lhu(lhu(0, 1, 2));
    assert!(i.trace(&mut cpu, &mut sink).is_ok());
    assert_eq!(cpu.read_register(0), 0);
}

#[test]
fn direct_exec_faults_on_odd_address() {
    let mut cpu = setup_32();
    let l = lhu(5, 1, 1);
    let mut access = None;
    let r = l.exec(&mut cpu, &mut access);
    assert_eq!(r, Err(Fault::MmuMisalignment { target: 0x1001, width: MemWidth::Half }));
    assert!(access.is_none());
}

#[test]
fn decode_encode_round_trip() {
    let w = encode_lhu(5, 1, 2);
    let d = decode(0x80, w);
    match d {
        Ok(Instruction::Lhu(l)) => {
            assert_eq!(l.address, 0x80);
            assert_eq!(l.operands.rd, 5);
            assert_eq!(l.operands.rs1, 1);
            assert_eq!(l.operands.imm, 2);
        },
        other => panic!("wrong decode: {:?}", other),
    }
    // negative immediate: -4 sign-extended in two's complement
    let w2 = encode_addi(7, 3, (-4i64) as u64);
    match decode(0, w2) {
        Ok(Instruction::Addi(a)) => {
            assert_eq!(a.operands.rd, 7);
            assert_eq!(a.operands.rs1, 3);
            assert_eq!(a.operands.imm, (-4i64) as u64);
        },
        other => panic!("wrong decode: {:?}", other),
    }
    let w3 = encode_sll(2, 4, 6);
    match decode(0, w3) {
        Ok(Instruction::Sll(r)) => {
            assert_eq!((r.operands.rd, r.operands.rs1, r.operands.rs2), (2, 4, 6));
        },
        other => panic!("wrong decode: {:?}", other),
    }
}

#[test]
fn decode_rejects_unknown_word() {
    let r = decode(0x44, 0xFFFF_FFFF);
    assert_eq!(r, Err(Fault::IllegalInstruction { address: 0x44, word: 0xFFFF_FFFF }));
}

#[test]
fn mmu_alignment_faults() {
    let mut cpu = Cpu::new(Xlen::Bit64);
    assert!(matches!(
        cpu.mmu.load_word(0x1002),
        Err(Fault::MmuMisalignment { target: 0x1002, width: MemWidth::Word })
    ));
    assert!(matches!(
        cpu.mmu.load_doubleword(0x1004),
        Err(Fault::MmuMisalignment { target: 0x1004, width: MemWidth::Double })
    ));
    assert!(matches!(
        cpu.mmu.store_halfword(0x1001, 7),
        Err(Fault::MmuMisalignment { target: 0x1001, width: MemWidth::Half })
    ));
}

#[test]
fn mmu_store_load_round_trip() {
    let mut cpu = Cpu::new(Xlen::Bit64);
    assert!(cpu.mmu.store_doubleword(0x100, 0x1122_3344_5566_7788).is_ok());
    let (w, acc) = cpu.mmu.load_word(0x100).unwrap();
    assert_eq!(w, 0x5566_7788);
    assert_eq!(acc.address, 0x100);
    assert!(!acc.is_store);
    let (h, _) = cpu.mmu.load_halfword(0x104).unwrap();
    assert_eq!(h, 0x3344);
    let (b, _) = cpu.mmu.load_byte(0x107);
    assert_eq!(b, 0x11);
    let (d, _) = cpu.mmu.load_doubleword(0x100).unwrap();
    assert_eq!(d, 0x1122_3344_5566_7788);
    // unwritten memory reads as zero
    let (z, _) = cpu.mmu.load_byte(0x9999);
    assert_eq!(z, 0);
}

#[test]
fn register_zero_never_written_and_values_normalized() {
    let mut cpu = Cpu::new(Xlen::Bit32);
    cpu.write_register(0, 0xDEAD);
    assert_eq!(cpu.read_register(0), 0);
    cpu.write_register(3, 0x1_0000_0001);
    assert_eq!(cpu.read_register(3), 1);
    let mut cpu64 = Cpu::new(Xlen::Bit64);
    cpu64.write_register(3, 0x1_0000_0001);
    assert_eq!(cpu64.read_register(3), 0x1_0000_0001);
}

#[test]
fn trace_records_macro_address_on_every_micro_op() {
    let mut cpu = setup_32();
    let mut sink = Trace::new(true);
    let i = Instruction::Lhu(lhu(5, 1, 2));
    assert!(i.trace(&mut cpu, &mut sink).is_ok());
    for c in sink.cycles() {
        let a = match c.instruction {
            Instruction::Lhu(x) => x.address,
            Instruction::Addi(x) => x.address,
            Instruction::Andi(x) => x.address,
            Instruction::Xori(x) => x.address,
            Instruction::Slli(x) => x.address,
            Instruction::Srli(x) => x.address,
            Instruction::Sll(x) => x.address,
            Instruction::Ld(x) => x.address,
            Instruction::VirtualLw(x) => x.address,
            Instruction::VirtualAssertHalfwordAlign(x) => x.address,
        };
        assert_eq!(a, 0x8000_0000);
    }
}
