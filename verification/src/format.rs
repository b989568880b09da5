use vstd::prelude::*;

verus! {

/// Number of architectural registers.
pub const REGISTER_COUNT: u8 = 32;

/// Number of reserved virtual (scratch) register slots, live only within one
/// macro-instruction's expansion.
pub const VIRTUAL_REGISTER_COUNT: u8 = 32;

/// Size of the whole register file: architectural plus virtual slots.
pub const TOTAL_REGISTER_COUNT: u8 = 64;

/// Index of the `i`-th virtual register inside the register file.
pub fn virtual_register_index(i: u8) -> (r: u8)
    requires
        i < VIRTUAL_REGISTER_COUNT,
    ensures
        r == REGISTER_COUNT + i,
{
    REGISTER_COUNT + i
}

/// Register-immediate operands. The immediate is kept sign-extended to 64
/// bits in two's complement.
#[derive(Clone, Copy, PartialEq, Eq, Structural, Debug)]
pub struct FormatI {
    pub rd: u8,
    pub rs1: u8,
    pub imm: u64,
}

/// Register-register operands.
#[derive(Clone, Copy, PartialEq, Eq, Structural, Debug)]
pub struct FormatR {
    pub rd: u8,
    pub rs1: u8,
    pub rs2: u8,
}

/// Load-style operands: destination, base register and a sign-extended
/// displacement.
#[derive(Clone, Copy, PartialEq, Eq, Structural, Debug)]
pub struct FormatLoad {
    pub rd: u8,
    pub rs1: u8,
    pub imm: u64,
}

/// Operands of the virtual half-word alignment assertion: only the base
/// register and displacement of the access under check.
#[derive(Clone, Copy, PartialEq, Eq, Structural, Debug)]
pub struct HalfwordAlignFormat {
    pub rs1: u8,
    pub imm: u64,
}

/// Sign-extension of a 12-bit immediate field to 64 bits.
pub open spec fn sign_extend_12(x: u64) -> u64 {
    if x & 0x800 != 0 {
        (x & 0xFFF) | 0xFFFF_FFFF_FFFF_F000u64
    } else {
        x & 0xFFF
    }
}

/// Whether `imm` is representable as a sign-extended 12-bit immediate.
pub open spec fn fits_imm12(imm: u64) -> bool {
    sign_extend_12(imm) == imm
}

/// Destination register field of an encoded word.
pub open spec fn field_rd(w: u32) -> u8 {
    ((w >> 7) & 0x1F) as u8
}

/// First source register field of an encoded word.
pub open spec fn field_rs1(w: u32) -> u8 {
    ((w >> 15) & 0x1F) as u8
}

/// Second source register field of an encoded word.
pub open spec fn field_rs2(w: u32) -> u8 {
    ((w >> 20) & 0x1F) as u8
}

/// I-type immediate field of an encoded word, sign-extended.
pub open spec fn field_imm_i(w: u32) -> u64 {
    sign_extend_12((w >> 20) as u64)
}

/// Decode the register-immediate operand tuple of an encoded word.
pub fn decode_format_i(w: u32) -> (f: FormatI)
    ensures
        f.rd == field_rd(w),
        f.rs1 == field_rs1(w),
        f.imm == field_imm_i(w),
        f.rd < REGISTER_COUNT,
        f.rs1 < REGISTER_COUNT,
        fits_imm12(f.imm),
{
    let rd = ((w >> 7) & 0x1F) as u8;
    let rs1 = ((w >> 15) & 0x1F) as u8;
    let raw = (w >> 20) as u64;
    let imm = if raw & 0x800 != 0 {
        (raw & 0xFFF) | 0xFFFF_FFFF_FFFF_F000u64
    } else {
        raw & 0xFFF
    };
    proof {
        assert(((w >> 7) & 0x1F) < 32 && ((w >> 15) & 0x1F) < 32) by (bit_vector);
        lemma_sign_extend_12_fits(raw);
    }
    FormatI { rd, rs1, imm }
}

/// Decode the load-style operand tuple of an encoded word. The bit layout is
/// that of the I-type.
pub fn decode_format_load(w: u32) -> (f: FormatLoad)
    ensures
        f.rd == field_rd(w),
        f.rs1 == field_rs1(w),
        f.imm == field_imm_i(w),
        f.rd < REGISTER_COUNT,
        f.rs1 < REGISTER_COUNT,
        fits_imm12(f.imm),
{
    let fi = decode_format_i(w);
    FormatLoad { rd: fi.rd, rs1: fi.rs1, imm: fi.imm }
}

/// Decode the register-register operand tuple of an encoded word.
pub fn decode_format_r(w: u32) -> (f: FormatR)
    ensures
        f.rd == field_rd(w),
        f.rs1 == field_rs1(w),
        f.rs2 == field_rs2(w),
        f.rd < REGISTER_COUNT,
        f.rs1 < REGISTER_COUNT,
        f.rs2 < REGISTER_COUNT,
{
    let rd = ((w >> 7) & 0x1F) as u8;
    let rs1 = ((w >> 15) & 0x1F) as u8;
    let rs2 = ((w >> 20) & 0x1F) as u8;
    proof {
        assert(((w >> 7) & 0x1F) < 32 && ((w >> 15) & 0x1F) < 32 && ((w >> 20) & 0x1F) < 32)
            by (bit_vector);
    }
    FormatR { rd, rs1, rs2 }
}

/// Sign-extending a 12-bit field gives a value that fits 12 bits again.
pub proof fn lemma_sign_extend_12_fits(x: u64)
    by (bit_vector)
    ensures
        sign_extend_12(sign_extend_12(x)) == sign_extend_12(x),
{
}

} // verus!
