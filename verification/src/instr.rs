use vstd::prelude::*;
use crate::fault::Fault;
use crate::format::{
    FormatI, FormatLoad, FormatR, HalfwordAlignFormat, field_imm_i, field_rd, field_rs1, field_rs2,
    fits_imm12, REGISTER_COUNT,
};

verus! {

/// Half-word load, zero-extended: the paradigm macro-instruction. Its
/// effective address need only be 2-byte aligned, weaker than the natural
/// alignment the MMU's primitives demand, so tracing expands it into a
/// virtual sequence.
#[derive(Clone, Copy, PartialEq, Eq, Debug)]
pub struct LHU {
    pub address: u64,
    pub operands: FormatLoad,
    pub virtual_sequence_remaining: Option<u8>,
    pub is_compressed: bool,
}

/// Add immediate.
#[derive(Clone, Copy, PartialEq, Eq, Debug)]
pub struct ADDI {
    pub address: u64,
    pub operands: FormatI,
    pub virtual_sequence_remaining: Option<u8>,
    pub is_compressed: bool,
}

/// And immediate.
#[derive(Clone, Copy, PartialEq, Eq, Debug)]
pub struct ANDI {
    pub address: u64,
    pub operands: FormatI,
    pub virtual_sequence_remaining: Option<u8>,
    pub is_compressed: bool,
}

/// Xor immediate.
#[derive(Clone, Copy, PartialEq, Eq, Debug)]
pub struct XORI {
    pub address: u64,
    pub operands: FormatI,
    pub virtual_sequence_remaining: Option<u8>,
    pub is_compressed: bool,
}

/// Shift left logical by immediate.
#[derive(Clone, Copy, PartialEq, Eq, Debug)]
pub struct SLLI {
    pub address: u64,
    pub operands: FormatI,
    pub virtual_sequence_remaining: Option<u8>,
    pub is_compressed: bool,
}

/// Shift right logical by immediate.
#[derive(Clone, Copy, PartialEq, Eq, Debug)]
pub struct SRLI {
    pub address: u64,
    pub operands: FormatI,
    pub virtual_sequence_remaining: Option<u8>,
    pub is_compressed: bool,
}

/// Shift left logical by register.
#[derive(Clone, Copy, PartialEq, Eq, Debug)]
pub struct SLL {
    pub address: u64,
    pub operands: FormatR,
    pub virtual_sequence_remaining: Option<u8>,
    pub is_compressed: bool,
}

/// Double-word load.
#[derive(Clone, Copy, PartialEq, Eq, Debug)]
pub struct LD {
    pub address: u64,
    pub operands: FormatLoad,
    pub virtual_sequence_remaining: Option<u8>,
    pub is_compressed: bool,
}

/// Virtual aligned word load, zero-extended: emitted only inside expansions,
/// never decoded from the architectural stream.
#[derive(Clone, Copy, PartialEq, Eq, Debug)]
pub struct VirtualLW {
    pub address: u64,
    pub operands: FormatI,
    pub virtual_sequence_remaining: Option<u8>,
    pub is_compressed: bool,
}

/// Virtual assertion that an effective address is half-word aligned: the
/// architectural precondition check standing first in an expansion. Writes
/// nothing; faults deterministically when violated.
#[derive(Clone, Copy, PartialEq, Eq, Debug)]
pub struct VirtualAssertHalfwordAlignment {
    pub address: u64,
    pub operands: HalfwordAlignFormat,
    pub virtual_sequence_remaining: Option<u8>,
    pub is_compressed: bool,
}

/// The closed instruction set: one variant per opcode.
#[derive(Clone, Copy, PartialEq, Eq, Debug)]
pub enum Instruction {
    Lhu(LHU),
    Addi(ADDI),
    Andi(ANDI),
    Xori(XORI),
    Slli(SLLI),
    Srli(SRLI),
    Sll(SLL),
    Ld(LD),
    VirtualLw(VirtualLW),
    VirtualAssertHalfwordAlign(VirtualAssertHalfwordAlignment),
}

impl Instruction {
    /// The program address the instruction was fetched from; all micro-ops
    /// of one expansion share their macro-instruction's address.
    pub open spec fn spec_address(self) -> u64 {
        match self {
            Instruction::Lhu(i) => i.address,
            Instruction::Addi(i) => i.address,
            Instruction::Andi(i) => i.address,
            Instruction::Xori(i) => i.address,
            Instruction::Slli(i) => i.address,
            Instruction::Srli(i) => i.address,
            Instruction::Sll(i) => i.address,
            Instruction::Ld(i) => i.address,
            Instruction::VirtualLw(i) => i.address,
            Instruction::VirtualAssertHalfwordAlign(i) => i.address,
        }
    }

    /// Steps left after this one in its virtual sequence, `None` outside an
    /// expansion. A consumer can detect sequence boundaries from it without
    /// re-decoding.
    pub open spec fn spec_remaining(self) -> Option<u8> {
        match self {
            Instruction::Lhu(i) => i.virtual_sequence_remaining,
            Instruction::Addi(i) => i.virtual_sequence_remaining,
            Instruction::Andi(i) => i.virtual_sequence_remaining,
            Instruction::Xori(i) => i.virtual_sequence_remaining,
            Instruction::Slli(i) => i.virtual_sequence_remaining,
            Instruction::Srli(i) => i.virtual_sequence_remaining,
            Instruction::Sll(i) => i.virtual_sequence_remaining,
            Instruction::Ld(i) => i.virtual_sequence_remaining,
            Instruction::VirtualLw(i) => i.virtual_sequence_remaining,
            Instruction::VirtualAssertHalfwordAlign(i) => i.virtual_sequence_remaining,
        }
    }

    pub fn virtual_sequence_remaining(&self) -> (r: Option<u8>)
        ensures
            r == self.spec_remaining(),
    {
        match self {
            Instruction::Lhu(i) => i.virtual_sequence_remaining,
            Instruction::Addi(i) => i.virtual_sequence_remaining,
            Instruction::Andi(i) => i.virtual_sequence_remaining,
            Instruction::Xori(i) => i.virtual_sequence_remaining,
            Instruction::Slli(i) => i.virtual_sequence_remaining,
            Instruction::Srli(i) => i.virtual_sequence_remaining,
            Instruction::Sll(i) => i.virtual_sequence_remaining,
            Instruction::Ld(i) => i.virtual_sequence_remaining,
            Instruction::VirtualLw(i) => i.virtual_sequence_remaining,
            Instruction::VirtualAssertHalfwordAlign(i) => i.virtual_sequence_remaining,
        }
    }
}

pub const LHU_MASK: u32 = 0x0000_707F;

pub const LHU_MATCH: u32 = 0x0000_5003;

pub const ADDI_MASK: u32 = 0x0000_707F;

pub const ADDI_MATCH: u32 = 0x0000_0013;

pub const ANDI_MASK: u32 = 0x0000_707F;

pub const ANDI_MATCH: u32 = 0x0000_7013;

pub const XORI_MASK: u32 = 0x0000_707F;

pub const XORI_MATCH: u32 = 0x0000_4013;

pub const SLLI_MASK: u32 = 0xFC00_707F;

pub const SLLI_MATCH: u32 = 0x0000_1013;

pub const SRLI_MASK: u32 = 0xFC00_707F;

pub const SRLI_MATCH: u32 = 0x0000_5013;

pub const SLL_MASK: u32 = 0xFE00_707F;

pub const SLL_MATCH: u32 = 0x0000_1033;

pub const LD_MASK: u32 = 0x0000_707F;

pub const LD_MATCH: u32 = 0x0000_3003;

/// The instruction catalog: scan the (mask, match) patterns; no match is an
/// illegal-instruction condition. Decoded instructions carry no expansion
/// counter and are uncompressed encodings.
pub open spec fn decode_spec(address: u64, w: u32) -> Result<Instruction, Fault> {
    if w & LHU_MASK == LHU_MATCH {
        Ok(
            Instruction::Lhu(
                LHU {
                    address,
                    operands: FormatLoad {
                        rd: field_rd(w),
                        rs1: field_rs1(w),
                        imm: field_imm_i(w),
                    },
                    virtual_sequence_remaining: None,
                    is_compressed: false,
                },
            ),
        )
    } else if w & ADDI_MASK == ADDI_MATCH {
        Ok(
            Instruction::Addi(
                ADDI {
                    address,
                    operands: FormatI { rd: field_rd(w), rs1: field_rs1(w), imm: field_imm_i(w) },
                    virtual_sequence_remaining: None,
                    is_compressed: false,
                },
            ),
        )
    } else if w & ANDI_MASK == ANDI_MATCH {
        Ok(
            Instruction::Andi(
                ANDI {
                    address,
                    operands: FormatI { rd: field_rd(w), rs1: field_rs1(w), imm: field_imm_i(w) },
                    virtual_sequence_remaining: None,
                    is_compressed: false,
                },
            ),
        )
    } else if w & XORI_MASK == XORI_MATCH {
        Ok(
            Instruction::Xori(
                XORI {
                    address,
                    operands: FormatI { rd: field_rd(w), rs1: field_rs1(w), imm: field_imm_i(w) },
                    virtual_sequence_remaining: None,
                    is_compressed: false,
                },
            ),
        )
    } else if w & SLLI_MASK == SLLI_MATCH {
        Ok(
            Instruction::Slli(
                SLLI {
                    address,
                    operands: FormatI { rd: field_rd(w), rs1: field_rs1(w), imm: field_imm_i(w) },
                    virtual_sequence_remaining: None,
                    is_compressed: false,
                },
            ),
        )
    } else if w & SRLI_MASK == SRLI_MATCH {
        Ok(
            Instruction::Srli(
                SRLI {
                    address,
                    operands: FormatI { rd: field_rd(w), rs1: field_rs1(w), imm: field_imm_i(w) },
                    virtual_sequence_remaining: None,
                    is_compressed: false,
                },
            ),
        )
    } else if w & SLL_MASK == SLL_MATCH {
        Ok(
            Instruction::Sll(
                SLL {
                    address,
                    operands: FormatR { rd: field_rd(w), rs1: field_rs1(w), rs2: field_rs2(w) },
                    virtual_sequence_remaining: None,
                    is_compressed: false,
                },
            ),
        )
    } else if w & LD_MASK == LD_MATCH {
        Ok(
            Instruction::Ld(
                LD {
                    address,
                    operands: FormatLoad {
                        rd: field_rd(w),
                        rs1: field_rs1(w),
                        imm: field_imm_i(w),
                    },
                    virtual_sequence_remaining: None,
                    is_compressed: false,
                },
            ),
        )
    } else {
        Err(Fault::IllegalInstruction { address, word: w })
    }
}

/// Decode one encoded word fetched from `address`.
pub fn decode(address: u64, w: u32) -> (r: Result<Instruction, Fault>)
    ensures
        r == decode_spec(address, w),
{
    if w & LHU_MASK == LHU_MATCH {
        let operands = crate::format::decode_format_load(w);
        Ok(
            Instruction::Lhu(
                LHU { address, operands, virtual_sequence_remaining: None, is_compressed: false },
            ),
        )
    } else if w & ADDI_MASK == ADDI_MATCH {
        let operands = crate::format::decode_format_i(w);
        Ok(
            Instruction::Addi(
                ADDI { address, operands, virtual_sequence_remaining: None, is_compressed: false },
            ),
        )
    } else if w & ANDI_MASK == ANDI_MATCH {
        let operands = crate::format::decode_format_i(w);
        Ok(
            Instruction::Andi(
                ANDI { address, operands, virtual_sequence_remaining: None, is_compressed: false },
            ),
        )
    } else if w & XORI_MASK == XORI_MATCH {
        let operands = crate::format::decode_format_i(w);
        Ok(
            Instruction::Xori(
                XORI { address, operands, virtual_sequence_remaining: None, is_compressed: false },
            ),
        )
    } else if w & SLLI_MASK == SLLI_MATCH {
        let operands = crate::format::decode_format_i(w);
        Ok(
            Instruction::Slli(
                SLLI { address, operands, virtual_sequence_remaining: None, is_compressed: false },
            ),
        )
    } else if w & SRLI_MASK == SRLI_MATCH {
        let operands = crate::format::decode_format_i(w);
        Ok(
            Instruction::Srli(
                SRLI { address, operands, virtual_sequence_remaining: None, is_compressed: false },
            ),
        )
    } else if w & SLL_MASK == SLL_MATCH {
        let operands = crate::format::decode_format_r(w);
        Ok(
            Instruction::Sll(
                SLL { address, operands, virtual_sequence_remaining: None, is_compressed: false },
            ),
        )
    } else if w & LD_MASK == LD_MATCH {
        let operands = crate::format::decode_format_load(w);
        Ok(
            Instruction::Ld(
                LD { address, operands, virtual_sequence_remaining: None, is_compressed: false },
            ),
        )
    } else {
        Err(Fault::IllegalInstruction { address, word: w })
    }
}

/// I-type layout: the match pattern's fixed bits with the operand fields
/// placed at their positions.
pub open spec fn encode_i_spec(matchbits: u32, rd: u8, rs1: u8, imm: u64) -> u32 {
    matchbits | ((rd as u32) << 7) | ((rs1 as u32) << 15) | (((imm & 0xFFF) as u32) << 20)
}

/// R-type layout.
pub open spec fn encode_r_spec(matchbits: u32, rd: u8, rs1: u8, rs2: u8) -> u32 {
    matchbits | ((rd as u32) << 7) | ((rs1 as u32) << 15) | ((rs2 as u32) << 20)
}

fn encode_i_type(matchbits: u32, rd: u8, rs1: u8, imm: u64) -> (w: u32)
    ensures
        w == encode_i_spec(matchbits, rd, rs1, imm),
{
    matchbits | ((rd as u32) << 7) | ((rs1 as u32) << 15) | (((imm & 0xFFF) as u32) << 20)
}

fn encode_r_type(matchbits: u32, rd: u8, rs1: u8, rs2: u8) -> (w: u32)
    ensures
        w == encode_r_spec(matchbits, rd, rs1, rs2),
{
    matchbits | ((rd as u32) << 7) | ((rs1 as u32) << 15) | ((rs2 as u32) << 20)
}

/// Reference encoder for LHU: decoding the produced word from any address
/// yields exactly the given operands.
pub fn encode_lhu(rd: u8, rs1: u8, imm: u64) -> (w: u32)
    requires
        rd < REGISTER_COUNT,
        rs1 < REGISTER_COUNT,
        fits_imm12(imm),
    ensures
        forall|a: u64|
            decode_spec(a, w) == Ok::<Instruction, Fault>(
                Instruction::Lhu(
                    LHU {
                        address: a,
                        operands: FormatLoad { rd, rs1, imm },
                        virtual_sequence_remaining: None,
                        is_compressed: false,
                    },
                ),
            ),
{
    let w = encode_i_type(LHU_MATCH, rd, rs1, imm);
    proof {
        assert(field_rd(w) == rd && field_rs1(w) == rs1 && field_imm_i(w) == imm && w & LHU_MASK
            == LHU_MATCH) by (bit_vector)
            requires
                rd < 32,
                rs1 < 32,
                fits_imm12(imm),
                w == encode_i_spec(LHU_MATCH, rd, rs1, imm),
        ;
    }
    w
}

/// Reference encoder for ADDI.
pub fn encode_addi(rd: u8, rs1: u8, imm: u64) -> (w: u32)
    requires
        rd < REGISTER_COUNT,
        rs1 < REGISTER_COUNT,
        fits_imm12(imm),
    ensures
        forall|a: u64|
            decode_spec(a, w) == Ok::<Instruction, Fault>(
                Instruction::Addi(
                    ADDI {
                        address: a,
                        operands: FormatI { rd, rs1, imm },
                        virtual_sequence_remaining: None,
                        is_compressed: false,
                    },
                ),
            ),
{
    let w = encode_i_type(ADDI_MATCH, rd, rs1, imm);
    proof {
        assert(field_rd(w) == rd && field_rs1(w) == rs1 && field_imm_i(w) == imm && w & ADDI_MASK
            == ADDI_MATCH && w & LHU_MASK != LHU_MATCH) by (bit_vector)
            requires
                rd < 32,
                rs1 < 32,
                fits_imm12(imm),
                w == encode_i_spec(ADDI_MATCH, rd, rs1, imm),
        ;
    }
    w
}

/// Reference encoder for ANDI.
pub fn encode_andi(rd: u8, rs1: u8, imm: u64) -> (w: u32)
    requires
        rd < REGISTER_COUNT,
        rs1 < REGISTER_COUNT,
        fits_imm12(imm),
    ensures
        forall|a: u64|
            decode_spec(a, w) == Ok::<Instruction, Fault>(
                Instruction::Andi(
                    ANDI {
                        address: a,
                        operands: FormatI { rd, rs1, imm },
                        virtual_sequence_remaining: None,
                        is_compressed: false,
                    },
                ),
            ),
{
    let w = encode_i_type(ANDI_MATCH, rd, rs1, imm);
    proof {
        assert(field_rd(w) == rd && field_rs1(w) == rs1 && field_imm_i(w) == imm && w & ANDI_MASK
            == ANDI_MATCH && w & LHU_MASK != LHU_MATCH && w & ADDI_MASK != ADDI_MATCH)
            by (bit_vector)
            requires
                rd < 32,
                rs1 < 32,
                fits_imm12(imm),
                w == encode_i_spec(ANDI_MATCH, rd, rs1, imm),
        ;
    }
    w
}

/// Reference encoder for XORI.
pub fn encode_xori(rd: u8, rs1: u8, imm: u64) -> (w: u32)
    requires
        rd < REGISTER_COUNT,
        rs1 < REGISTER_COUNT,
        fits_imm12(imm),
    ensures
        forall|a: u64|
            decode_spec(a, w) == Ok::<Instruction, Fault>(
                Instruction::Xori(
                    XORI {
                        address: a,
                        operands: FormatI { rd, rs1, imm },
                        virtual_sequence_remaining: None,
                        is_compressed: false,
                    },
                ),
            ),
{
    let w = encode_i_type(XORI_MATCH, rd, rs1, imm);
    proof {
        assert(field_rd(w) == rd && field_rs1(w) == rs1 && field_imm_i(w) == imm && w & XORI_MASK
            == XORI_MATCH && w & LHU_MASK != LHU_MATCH && w & ADDI_MASK != ADDI_MATCH && w
            & ANDI_MASK != ANDI_MATCH) by (bit_vector)
            requires
                rd < 32,
                rs1 < 32,
                fits_imm12(imm),
                w == encode_i_spec(XORI_MATCH, rd, rs1, imm),
        ;
    }
    w
}

/// Reference encoder for SLLI. The immediate is the shift amount.
pub fn encode_slli(rd: u8, rs1: u8, shamt: u64) -> (w: u32)
    requires
        rd < REGISTER_COUNT,
        rs1 < REGISTER_COUNT,
        shamt < 64,
    ensures
        forall|a: u64|
            decode_spec(a, w) == Ok::<Instruction, Fault>(
                Instruction::Slli(
                    SLLI {
                        address: a,
                        operands: FormatI { rd, rs1, imm: shamt },
                        virtual_sequence_remaining: None,
                        is_compressed: false,
                    },
                ),
            ),
{
    let w = encode_i_type(SLLI_MATCH, rd, rs1, shamt);
    proof {
        assert(field_rd(w) == rd && field_rs1(w) == rs1 && field_imm_i(w) == shamt && w & SLLI_MASK
            == SLLI_MATCH && w & LHU_MASK != LHU_MATCH && w & ADDI_MASK != ADDI_MATCH && w
            & ANDI_MASK != ANDI_MATCH && w & XORI_MASK != XORI_MATCH) by (bit_vector)
            requires
                rd < 32,
                rs1 < 32,
                shamt < 64,
                w == encode_i_spec(SLLI_MATCH, rd, rs1, shamt),
        ;
    }
    w
}

/// Reference encoder for SRLI. The immediate is the shift amount.
pub fn encode_srli(rd: u8, rs1: u8, shamt: u64) -> (w: u32)
    requires
        rd < REGISTER_COUNT,
        rs1 < REGISTER_COUNT,
        shamt < 64,
    ensures
        forall|a: u64|
            decode_spec(a, w) == Ok::<Instruction, Fault>(
                Instruction::Srli(
                    SRLI {
                        address: a,
                        operands: FormatI { rd, rs1, imm: shamt },
                        virtual_sequence_remaining: None,
                        is_compressed: false,
                    },
                ),
            ),
{
    let w = encode_i_type(SRLI_MATCH, rd, rs1, shamt);
    proof {
        assert(field_rd(w) == rd && field_rs1(w) == rs1 && field_imm_i(w) == shamt && w & SRLI_MASK
            == SRLI_MATCH && w & LHU_MASK != LHU_MATCH && w & ADDI_MASK != ADDI_MATCH && w
            & ANDI_MASK != ANDI_MATCH && w & XORI_MASK != XORI_MATCH && w & SLLI_MASK
            != SLLI_MATCH) by (bit_vector)
            requires
                rd < 32,
                rs1 < 32,
                shamt < 64,
                w == encode_i_spec(SRLI_MATCH, rd, rs1, shamt),
        ;
    }
    w
}

/// Reference encoder for SLL.
pub fn encode_sll(rd: u8, rs1: u8, rs2: u8) -> (w: u32)
    requires
        rd < REGISTER_COUNT,
        rs1 < REGISTER_COUNT,
        rs2 < REGISTER_COUNT,
    ensures
        forall|a: u64|
            decode_spec(a, w) == Ok::<Instruction, Fault>(
                Instruction::Sll(
                    SLL {
                        address: a,
                        operands: FormatR { rd, rs1, rs2 },
                        virtual_sequence_remaining: None,
                        is_compressed: false,
                    },
                ),
            ),
{
    let w = encode_r_type(SLL_MATCH, rd, rs1, rs2);
    proof {
        assert(field_rd(w) == rd && field_rs1(w) == rs1 && field_rs2(w) == rs2 && w & SLL_MASK
            == SLL_MATCH && w & LHU_MASK != LHU_MATCH && w & ADDI_MASK != ADDI_MATCH && w
            & ANDI_MASK != ANDI_MATCH && w & XORI_MASK != XORI_MATCH && w & SLLI_MASK != SLLI_MATCH
            && w & SRLI_MASK != SRLI_MATCH) by (bit_vector)
            requires
                rd < 32,
                rs1 < 32,
                rs2 < 32,
                w == encode_r_spec(SLL_MATCH, rd, rs1, rs2),
        ;
    }
    w
}

/// Reference encoder for LD.
pub fn encode_ld(rd: u8, rs1: u8, imm: u64) -> (w: u32)
    requires
        rd < REGISTER_COUNT,
        rs1 < REGISTER_COUNT,
        fits_imm12(imm),
    ensures
        forall|a: u64|
            decode_spec(a, w) == Ok::<Instruction, Fault>(
                Instruction::Ld(
                    LD {
                        address: a,
                        operands: FormatLoad { rd, rs1, imm },
                        virtual_sequence_remaining: None,
                        is_compressed: false,
                    },
                ),
            ),
{
    let w = encode_i_type(LD_MATCH, rd, rs1, imm);
    proof {
        assert(field_rd(w) == rd && field_rs1(w) == rs1 && field_imm_i(w) == imm && w & LD_MASK
            == LD_MATCH && w & LHU_MASK != LHU_MATCH && w & ADDI_MASK != ADDI_MATCH && w
            & ANDI_MASK != ANDI_MATCH && w & XORI_MASK != XORI_MATCH && w & SLLI_MASK != SLLI_MATCH
            && w & SRLI_MASK != SRLI_MATCH && w & SLL_MASK != SLL_MATCH) by (bit_vector)
            requires
                rd < 32,
                rs1 < 32,
                fits_imm12(imm),
                w == encode_i_spec(LD_MATCH, rd, rs1, imm),
        ;
    }
    w
}

} // verus!
