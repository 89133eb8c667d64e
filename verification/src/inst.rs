use vstd::prelude::*;

use crate::program::RawInst;

verus! {

/// A register number (`x0` .. `x31` in well-formed programs).
pub type RegType = u8;

/// An immediate operand, already sign-extended.
pub type ImmType = i32;

/// A decoded instruction of the emulated machine.
#[derive(Debug, Copy, Clone, PartialEq, Eq, Structural)]
pub enum Inst {
    // Emulator special instructions
    /// Ends emulation.
    Exit,
    Print(RegType),
    Dump,
    Compressed,
    // Memory
    /// reg (out), imm, reg (in addr)
    LoadWord(RegType, ImmType, RegType),
    /// reg (in), imm, reg (out addr)
    StoreWord(RegType, ImmType, RegType),
    /// reg (out), imm
    LoadImmediate(RegType, ImmType),
    /// reg (out), imm
    LoadUpperImmediate(RegType, ImmType),
    /// reg (out), reg (in)
    Move(RegType, RegType),
    // Arithmetic
    /// reg (out), imm
    AddUpperImmediateToPc(RegType, ImmType),
    /// reg (out), reg (in), imm
    AddImmediate(RegType, RegType, ImmType),
    Add(RegType, RegType, RegType),
    Subtract(RegType, RegType, RegType),
    Multiply(RegType, RegType, RegType),
    Divide(RegType, RegType, RegType),
    Remainder(RegType, RegType, RegType),
    // Bitwise operations
    And(RegType, RegType, RegType),
    Or(RegType, RegType, RegType),
    Not(RegType, RegType),
    Xor(RegType, RegType, RegType),
    XorImm(RegType, RegType, ImmType),
    ShiftLeftLogical(RegType, RegType, RegType),
    ShiftRightLogical(RegType, RegType, RegType),
    ShiftRightArithmetic(RegType, RegType, RegType),
    // Control flow
    Jump(ImmType),
    /// reg (out), imm
    JumpAndLink(RegType, ImmType),
    /// reg (out), reg (in), imm
    JumpAndLinkReturn(RegType, RegType, ImmType),
    BranchEquals(RegType, RegType, ImmType),
    BranchNotEquals(RegType, RegType, ImmType),
    BranchLessThan(RegType, RegType, ImmType),
    BranchGreaterThan(RegType, RegType, ImmType),
    BranchLessEq(RegType, RegType, ImmType),
    BranchGreaterEq(RegType, RegType, ImmType),
    Ecall,
    // Misc
    Nop,
}

impl Default for Inst {
    fn default() -> (r: Inst)
        ensures
            r == Inst::Exit,
    {
        Inst::Exit
    }
}

/// The value of `x` read as a two's-complement number whose sign bit has
/// weight `sign_bit` (so `x < 2 * sign_bit`).
pub open spec fn to_signed(x: int, sign_bit: int) -> int {
    if x < sign_bit {
        x
    } else {
        x - 2 * sign_bit
    }
}

// ---------------------------------------------------------------------------
// Fields of a 32-bit instruction word.

pub open spec fn word_opcode(v: u32) -> u32 {
    v & 0x7f
}

pub open spec fn word_rd(v: u32) -> u8 {
    ((v >> 7) & 0x1f) as u8
}

pub open spec fn word_funct3(v: u32) -> u32 {
    (v >> 12) & 0x7
}

pub open spec fn word_rs1(v: u32) -> u8 {
    ((v >> 15) & 0x1f) as u8
}

pub open spec fn word_rs2(v: u32) -> u8 {
    ((v >> 20) & 0x1f) as u8
}

pub open spec fn word_funct7(v: u32) -> u32 {
    v >> 25
}

/// U-type immediate: bits 31..12 in place, low twelve bits zero.
pub open spec fn word_u_imm(v: u32) -> i32 {
    (v & 0xfffff000) as i32
}

/// I-type immediate: bits 31..20, sign-extended.
pub open spec fn word_i_imm(v: u32) -> i32 {
    to_signed((v >> 20) as int, 0x800) as i32
}

/// S-type immediate: imm[4:0] = bits 11..7, imm[11:5] = bits 31..25.
pub open spec fn word_s_imm(v: u32) -> i32 {
    to_signed(((v >> 7) & 0x1f) + (v >> 25) * 0x20, 0x800) as i32
}

/// B-type immediate: imm[4:1] = bits 11..8, imm[10:5] = bits 30..25,
/// imm[11] = bit 7, imm[12] = bit 31.
pub open spec fn word_b_imm(v: u32) -> i32 {
    to_signed(
        ((v >> 8) & 0xf) * 0x2 + ((v >> 25) & 0x3f) * 0x20 + ((v >> 7) & 0x1) * 0x800 + ((v
            >> 31) & 0x1) * 0x1000,
        0x1000,
    ) as i32
}

/// J-type immediate: imm[10:1] = bits 30..21, imm[11] = bit 20,
/// imm[19:12] = bits 19..12, imm[20] = bit 31.
pub open spec fn word_j_imm(v: u32) -> i32 {
    to_signed(
        ((v >> 21) & 0x3ff) * 0x2 + ((v >> 20) & 0x1) * 0x800 + ((v >> 12) & 0xff) * 0x1000 + ((v
            >> 31) & 0x1) * 0x100000,
        0x100000,
    ) as i32
}

/// What a 32-bit instruction word decodes to, or `Err(())` for a word that
/// encodes no supported instruction.
pub open spec fn decoded_word(v: u32) -> Result<Inst, ()> {
    let opcode = word_opcode(v);
    let funct3 = word_funct3(v);
    let funct7 = word_funct7(v);
    let rd = word_rd(v);
    let rs1 = word_rs1(v);
    let rs2 = word_rs2(v);
    if opcode == 0x17 {
        Ok(Inst::AddUpperImmediateToPc(rd, word_u_imm(v)))
    } else if opcode == 0x03 && funct3 == 0b010 {
        Ok(Inst::LoadWord(rd, word_i_imm(v), rs1))
    } else if opcode == 0x23 && funct3 == 0b010 {
        Ok(Inst::StoreWord(rs2, word_s_imm(v), rs1))
    } else if opcode == 0x37 {
        Ok(Inst::LoadUpperImmediate(rd, word_u_imm(v)))
    } else if opcode == 0x13 && funct3 == 0b000 {
        Ok(Inst::AddImmediate(rd, rs1, word_i_imm(v)))
    } else if opcode == 0x13 && funct3 == 0b100 {
        Ok(Inst::XorImm(rd, rs1, word_i_imm(v)))
    } else if opcode == 0x33 && funct3 == 0b000 && funct7 == 0 {
        Ok(Inst::Add(rd, rs1, rs2))
    } else if opcode == 0x33 && funct3 == 0b100 && funct7 == 0 {
        Ok(Inst::Xor(rd, rs1, rs2))
    } else if opcode == 0x33 && funct3 == 0b110 && funct7 == 0 {
        Ok(Inst::Or(rd, rs1, rs2))
    } else if opcode == 0x33 && funct3 == 0b111 && funct7 == 0 {
        Ok(Inst::And(rd, rs1, rs2))
    } else if opcode == 0x63 && funct3 == 0b100 {
        Ok(Inst::BranchLessThan(rs1, rs2, word_b_imm(v)))
    } else if opcode == 0x63 && funct3 == 0b001 {
        Ok(Inst::BranchNotEquals(rs1, rs2, word_b_imm(v)))
    } else if opcode == 0x73 {
        Ok(Inst::Ecall)
    } else if opcode == 0x67 && funct3 == 0 {
        Ok(Inst::JumpAndLinkReturn(rd, rs1, word_i_imm(v)))
    } else if opcode == 0x6f {
        Ok(Inst::JumpAndLink(rd, word_j_imm(v)))
    } else {
        Err(())
    }
}

/// The shift-based sign extensions used by the decoder compute the
/// immediates described above.
proof fn lemma_word_immediates(value: u32)
    by (bit_vector)
    ensures
        ((value as i32) >> 20u32) as int == to_signed((value >> 20u32) as int, 0x800),
        (((((value >> 7u32) & 0x1f) | ((value >> 25u32) << 5u32)) as i32) << 20u32) >> 20u32
            == to_signed(((value >> 7u32) & 0x1f) + (value >> 25u32) * 0x20, 0x800),
        ((((((value >> 8u32) & 0x0f) << 1u32) | (((value >> 25u32) & 0x3f) << 5u32) | (((value
            >> 7u32) & 0x01) << 11u32) | (((value >> 31u32) & 0x01) << 12u32)) << 19u32) as i32)
            >> 19u32 == to_signed(
            ((value >> 8u32) & 0xf) * 0x2 + ((value >> 25u32) & 0x3f) * 0x20 + ((value >> 7u32)
                & 0x1) * 0x800 + ((value >> 31u32) & 0x1) * 0x1000,
            0x1000,
        ),
        ((((((value >> 21u32) & 0x03ff) << 1u32) | (((value >> 20u32) & 0x01) << 11u32) | (((value
            >> 12u32) & 0x00ff) << 12u32) | (((value >> 31u32) & 0x01) << 20u32)) as i32)
            << 11u32) >> 11u32 == to_signed(
            ((value >> 21u32) & 0x3ff) * 0x2 + ((value >> 20u32) & 0x1) * 0x800 + ((value
                >> 12u32) & 0xff) * 0x1000 + ((value >> 31u32) & 0x1) * 0x100000,
            0x100000,
        ),
{
}

impl TryFrom<u32> for Inst {
    type Error = ();

    /// Decodes a 32-bit instruction word.
    fn try_from(value: u32) -> (r: Result<Inst, ()>)
        ensures
            r == decoded_word(value),
    {
        proof {
            lemma_word_immediates(value);
        }
        let opcode = value & 0x7f;
        let rd = ((value >> 7) & 0x1f) as RegType;
        let funct3 = (value >> 12) & 0x7;
        let rs1 = ((value >> 15) & 0x1f) as RegType;
        let rs2 = ((value >> 20) & 0x1f) as RegType;
        let funct7 = value >> 25;
        let u_imm = (value & 0xfffff000) as i32;
        let i_imm = (value as i32) >> 20;
        let s_imm = (((value >> 7) & 0x1f) | ((value >> 25) << 5)) as i32;
        let s_imm = (s_imm << 20) >> 20;
        let b_imm = (((value >> 8) & 0x0f) << 1) | (((value >> 25) & 0x3f) << 5) | (((value >> 7)
            & 0x01) << 11) | (((value >> 31) & 0x01) << 12);
        let b_imm = ((b_imm << 19) as i32) >> 19;
        let j_imm = (((value >> 21) & 0x03ff) << 1) | (((value >> 20) & 0x01) << 11) | (((value
            >> 12) & 0x00ff) << 12) | (((value >> 31) & 0x01) << 20);
        let j_imm = ((j_imm as i32) << 11) >> 11;
        if opcode == 0x17 {
            Ok(Inst::AddUpperImmediateToPc(rd, u_imm))
        } else if opcode == 0x03 && funct3 == 0b010 {
            Ok(Inst::LoadWord(rd, i_imm, rs1))
        } else if opcode == 0x23 && funct3 == 0b010 {
            Ok(Inst::StoreWord(rs2, s_imm, rs1))
        } else if opcode == 0x37 {
            Ok(Inst::LoadUpperImmediate(rd, u_imm))
        } else if opcode == 0x13 && funct3 == 0b000 {
            Ok(Inst::AddImmediate(rd, rs1, i_imm))
        } else if opcode == 0x13 && funct3 == 0b100 {
            Ok(Inst::XorImm(rd, rs1, i_imm))
        } else if opcode == 0x33 && funct3 == 0b000 && funct7 == 0 {
            Ok(Inst::Add(rd, rs1, rs2))
        } else if opcode == 0x33 && funct3 == 0b100 && funct7 == 0 {
            Ok(Inst::Xor(rd, rs1, rs2))
        } else if opcode == 0x33 && funct3 == 0b110 && funct7 == 0 {
            Ok(Inst::Or(rd, rs1, rs2))
        } else if opcode == 0x33 && funct3 == 0b111 && funct7 == 0 {
            Ok(Inst::And(rd, rs1, rs2))
        } else if opcode == 0x63 && funct3 == 0b100 {
            Ok(Inst::BranchLessThan(rs1, rs2, b_imm))
        } else if opcode == 0x63 && funct3 == 0b001 {
            Ok(Inst::BranchNotEquals(rs1, rs2, b_imm))
        } else if opcode == 0x73 {
            Ok(Inst::Ecall)
        } else if opcode == 0x67 && funct3 == 0 {
            Ok(Inst::JumpAndLinkReturn(rd, rs1, i_imm))
        } else if opcode == 0x6f {
            Ok(Inst::JumpAndLink(rd, j_imm))
        } else {
            Err(())
        }
    }
}

impl vstd::std_specs::convert::TryFromSpecImpl<u32> for Inst {
    open spec fn obeys_try_from_spec() -> bool {
        true
    }

    open spec fn try_from_spec(v: u32) -> Result<Inst, ()> {
        decoded_word(v)
    }
}

// ---------------------------------------------------------------------------
// Fields of a 16-bit compressed instruction.

pub open spec fn c_quadrant(v: u16) -> u16 {
    v & 0x3
}

pub open spec fn c_funct3(v: u16) -> u16 {
    (v >> 13) & 0x7
}

/// Bits 11..10.
pub open spec fn c_funct2(v: u16) -> u16 {
    (v >> 10) & 0x3
}

/// Bit 12.
pub open spec fn c_funct4(v: u16) -> u16 {
    (v >> 12) & 0x1
}

/// The full register field in bits 11..7 (`rd`, also `rs1`).
pub open spec fn c_rd(v: u16) -> u8 {
    ((v >> 7) & 0x1f) as u8
}

/// The full register field in bits 6..2.
pub open spec fn c_rs2(v: u16) -> u8 {
    ((v >> 2) & 0x1f) as u8
}

/// The register `x8 + r` named by the three-bit field in bits 4..2.
pub open spec fn c_low_reg(v: u16) -> u8 {
    (8 + ((v >> 2) & 0x7)) as u8
}

/// The register `x8 + r` named by the three-bit field in bits 9..7.
pub open spec fn c_high_reg(v: u16) -> u8 {
    (8 + ((v >> 7) & 0x7)) as u8
}

/// Six-bit immediate: imm[5] = bit 12, imm[4:0] = bits 6..2, sign-extended.
pub open spec fn c_imm6(v: u16) -> int {
    to_signed(((v >> 12) & 0x1) * 0x20 + ((v >> 2) & 0x1f), 0x20)
}

/// Six-bit shift amount: shamt[5] = bit 12, shamt[4:0] = bits 6..2.
pub open spec fn c_shamt(v: u16) -> u8 {
    (((v >> 12) & 0x1) * 0x20 + ((v >> 2) & 0x1f)) as u8
}

/// Store offset used by the quadrant-0 store: [5] = bit 12, [4] = bit 11,
/// [3] = bit 10, [2] = bit 6, [6] = bit 5.
pub open spec fn c_store_offset(v: u16) -> int {
    ((v >> 12) & 0x1) * 0x20 + ((v >> 11) & 0x1) * 0x10 + ((v >> 10) & 0x1) * 0x8 + ((v >> 6)
        & 0x1) * 0x4 + ((v >> 5) & 0x1) * 0x40
}

/// Load offset used by the quadrant-0 load: [1:0] = bits 6..5, [5:3] = bits 12..10.
pub open spec fn c_load_offset(v: u16) -> int {
    ((v >> 5) & 0x3) + ((v >> 10) & 0x7) * 0x8
}

/// Jump offset: [11] = bit 12, [4] = bit 11, [9:8] = bits 10..9, [10] = bit 8,
/// [6] = bit 7, [7] = bit 6, [3:1] = bits 5..3, [5] = bit 2, sign-extended.
pub open spec fn c_jump_offset(v: u16) -> int {
    to_signed(
        ((v >> 12) & 0x1) * 0x800 + ((v >> 11) & 0x1) * 0x10 + ((v >> 9) & 0x3) * 0x100 + ((v
            >> 8) & 0x1) * 0x400 + ((v >> 7) & 0x1) * 0x40 + ((v >> 6) & 0x1) * 0x80 + ((v >> 3)
            & 0x7) * 0x2 + ((v >> 2) & 0x1) * 0x20,
        0x800,
    )
}

/// Stack adjustment: [9] = bit 12, [4] = bit 6, [6] = bit 5, [8:7] = bits 4..3,
/// [5] = bit 2, sign-extended.
pub open spec fn c_stack_adjust(v: u16) -> int {
    to_signed(
        ((v >> 12) & 0x1) * 0x200 + ((v >> 6) & 0x1) * 0x10 + ((v >> 5) & 0x1) * 0x40 + ((v
            >> 3) & 0x3) * 0x80 + ((v >> 2) & 0x1) * 0x20,
        0x200,
    )
}

/// Branch offset: [8] = bit 12, [4:3] = bits 11..10, [7:6] = bits 6..5,
/// [2:1] = bits 4..3, [5] = bit 2, sign-extended.
pub open spec fn c_branch_offset(v: u16) -> int {
    to_signed(
        ((v >> 12) & 0x1) * 0x100 + ((v >> 10) & 0x3) * 0x8 + ((v >> 5) & 0x3) * 0x40 + ((v
            >> 3) & 0x3) * 0x2 + ((v >> 2) & 0x1) * 0x20,
        0x100,
    )
}

/// Stack-relative load offset: [5] = bit 12, [4] = bit 6, [3] = bit 5,
/// [2] = bit 4, [7:6] = bits 3..2.
pub open spec fn c_stack_load_offset(v: u16) -> int {
    ((v >> 12) & 0x1) * 0x20 + ((v >> 6) & 0x1) * 0x10 + ((v >> 5) & 0x1) * 0x8 + ((v >> 4)
        & 0x1) * 0x4 + ((v >> 2) & 0x3) * 0x40
}

/// Stack-relative store offset: [5] = bit 12, [4] = bit 11, [3] = bit 10,
/// [2] = bit 9, [7:6] = bits 8..7.
pub open spec fn c_stack_store_offset(v: u16) -> int {
    ((v >> 12) & 0x1) * 0x20 + ((v >> 11) & 0x1) * 0x10 + ((v >> 10) & 0x1) * 0x8 + ((v >> 9)
        & 0x1) * 0x4 + ((v >> 7) & 0x3) * 0x40
}

/// What a 16-bit compressed instruction decodes to, or `Err(())` for one
/// that encodes no supported instruction.
pub open spec fn decoded_compressed(v: u16) -> Result<Inst, ()> {
    let quadrant = c_quadrant(v);
    let funct3 = c_funct3(v);
    let rd = c_rd(v);
    let rs2 = c_rs2(v);
    if quadrant == 0 {
        if funct3 == 0b000 {
            Ok(Inst::AddImmediate(c_low_reg(v), 2, c_imm6(v) as i32))
        } else if funct3 == 0b010 {
            Ok(Inst::LoadWord(c_low_reg(v), c_load_offset(v) as i32, c_high_reg(v)))
        } else if funct3 == 0b110 {
            Ok(Inst::StoreWord(c_low_reg(v), c_store_offset(v) as i32, c_high_reg(v)))
        } else {
            Err(())
        }
    } else if quadrant == 1 {
        if funct3 == 0b000 {
            if rd == 0 {
                Ok(Inst::Nop)
            } else {
                Ok(Inst::AddImmediate(rd, rd, c_imm6(v) as i32))
            }
        } else if funct3 == 0b001 {
            Ok(Inst::JumpAndLink(1, c_jump_offset(v) as i32))
        } else if funct3 == 0b010 {
            Ok(Inst::LoadImmediate(rd, c_imm6(v) as i32))
        } else if funct3 == 0b011 {
            if rd == 2 {
                Ok(Inst::AddImmediate(2, 2, c_stack_adjust(v) as i32))
            } else {
                Ok(Inst::LoadUpperImmediate(rd, (c_imm6(v) * 0x1000) as i32))
            }
        } else if funct3 == 0b100 {
            let r = c_high_reg(v);
            if c_funct2(v) == 0b11 {
                let op = (v >> 5) & 0x3;
                if op == 0b00 {
                    Ok(Inst::Subtract(r, r, c_low_reg(v)))
                } else if op == 0b01 {
                    Ok(Inst::Xor(r, r, c_low_reg(v)))
                } else if op == 0b10 {
                    Ok(Inst::Or(r, r, c_low_reg(v)))
                } else {
                    Ok(Inst::And(r, r, c_low_reg(v)))
                }
            } else if c_funct2(v) == 0b00 {
                Ok(Inst::ShiftRightLogical(r, r, c_shamt(v)))
            } else if c_funct2(v) == 0b01 {
                Ok(Inst::ShiftRightArithmetic(r, r, c_shamt(v)))
            } else {
                Err(())
            }
        } else if funct3 == 0b101 {
            Ok(Inst::Jump(c_jump_offset(v) as i32))
        } else if funct3 == 0b110 {
            Ok(Inst::BranchEquals(c_high_reg(v), 0, c_branch_offset(v) as i32))
        } else {
            Ok(Inst::BranchNotEquals(c_high_reg(v), 0, c_branch_offset(v) as i32))
        }
    } else if quadrant == 2 {
        if funct3 == 0b000 {
            Ok(Inst::ShiftLeftLogical(rd, rd, c_shamt(v)))
        } else if funct3 == 0b010 {
            Ok(Inst::LoadWord(rd, c_stack_load_offset(v) as i32, 2))
        } else if funct3 == 0b100 {
            if c_funct4(v) == 0 {
                if rs2 == 0 {
                    Ok(Inst::JumpAndLinkReturn(0, rd, 0))
                } else {
                    Ok(Inst::Move(rd, rs2))
                }
            } else if rs2 == 0 {
                if rd == 0 {
                    Ok(Inst::Ecall)
                } else {
                    Ok(Inst::JumpAndLinkReturn(1, rd, 0))
                }
            } else {
                Ok(Inst::Add(rd, rd, rs2))
            }
        } else if funct3 == 0b110 {
            Ok(Inst::StoreWord(rs2, c_stack_store_offset(v) as i32, 2))
        } else {
            Err(())
        }
    } else {
        Err(())
    }
}

/// What a raw instruction decodes to.
pub open spec fn decoded_raw(raw: RawInst) -> Result<Inst, ()> {
    match raw {
        RawInst::Compressed(c) => decoded_compressed(c),
        RawInst::Normal(n) => decoded_word(n),
    }
}

impl TryFrom<RawInst> for Inst {
    type Error = ();

    /// Decodes a raw instruction of either width.
    fn try_from(raw_inst: RawInst) -> (r: Result<Inst, ()>)
        ensures
            r == decoded_raw(raw_inst),
    {
        match raw_inst {
            RawInst::Compressed(c) => decompress(c),
            RawInst::Normal(n) => Inst::try_from(n),
        }
    }
}

impl vstd::std_specs::convert::TryFromSpecImpl<RawInst> for Inst {
    open spec fn obeys_try_from_spec() -> bool {
        true
    }

    open spec fn try_from_spec(v: RawInst) -> Result<Inst, ()> {
        decoded_raw(v)
    }
}

/// The bit manipulations of the compressed decoder compute the fields and
/// immediates described above.
proof fn lemma_compressed_fields(value: u16)
    by (bit_vector)
    ensures
        (value >> 2u16) & 0x7 <= 7,
        (value >> 7u16) & 0x7 <= 7,
        (value >> 5u16) & 0x3 <= 3,
        (value >> 10u16) & 0x3 <= 3,
        (((value >> 12u16) & 0x1) << 5u16 | ((value >> 11u16) & 0x1) << 4u16 | ((value >> 10u16)
            & 0x1) << 3u16 | ((value >> 6u16) & 0x1) << 2u16 | ((value >> 5u16) & 0x1) << 6u16)
            == c_store_offset(value),
        (((value >> 5u16) & 0x3) | ((value >> 10u16) & 0x7) << 3u16) == c_load_offset(value),
        ((((((value >> 12u16) & 0x1) << 5u16 | ((value >> 2u16) & 0x1f)) as i32) << 26u32)
            >> 26u32) == c_imm6(value),
        (((value >> 12u16) & 0x1) << 5u16 | ((value >> 2u16) & 0x1f)) == ((value >> 12u16) & 0x1)
            * 0x20 + ((value >> 2u16) & 0x1f),
        (((((((value >> 12u16) & 0x1) << 11u16 | ((value >> 11u16) & 0x1) << 4u16 | ((value
            >> 9u16) & 0x3) << 8u16 | ((value >> 8u16) & 0x1) << 10u16 | ((value >> 7u16) & 0x1)
            << 6u16 | ((value >> 6u16) & 0x1) << 7u16 | ((value >> 3u16) & 0x7) << 1u16 | ((value
            >> 2u16) & 0x1) << 5u16) as i32) << 20u32) >> 20u32)) == c_jump_offset(value),
        (((((((value >> 12u16) & 0x1) << 9u16 | ((value >> 6u16) & 0x1) << 4u16 | ((value
            >> 5u16) & 0x1) << 6u16 | ((value >> 3u16) & 0x3) << 7u16 | ((value >> 2u16) & 0x1)
            << 5u16) as i32) << 22u32) >> 22u32)) == c_stack_adjust(value),
        (((((((value >> 12u16) & 0x1) << 8u16 | ((value >> 10u16) & 0x3) << 3u16 | ((value
            >> 5u16) & 0x3) << 6u16 | ((value >> 3u16) & 0x3) << 1u16 | ((value >> 2u16) & 0x1)
            << 5u16) as i32) << 23u32) >> 23u32)) == c_branch_offset(value),
        (((value >> 12u16) & 0x1) << 5u16 | ((value >> 6u16) & 0x1) << 4u16 | ((value >> 5u16)
            & 0x1) << 3u16 | ((value >> 4u16) & 0x1) << 2u16 | ((value >> 2u16) & 0x3) << 6u16)
            == c_stack_load_offset(value),
        (((value >> 12u16) & 0x1) << 5u16 | ((value >> 11u16) & 0x1) << 4u16 | ((value >> 10u16)
            & 0x1) << 3u16 | ((value >> 9u16) & 0x1) << 2u16 | ((value >> 7u16) & 0x3) << 6u16)
            == c_stack_store_offset(value),
{
}


/// Decodes a 16-bit compressed instruction.
pub fn decompress(value: u16) -> (r: Result<Inst, ()>)
    ensures
        r == decoded_compressed(value),
{
    proof {
        lemma_compressed_fields(value);
    }
    let opcode = value & 0x3;
    let funct3 = (value >> 13) & 0x7;
    let rd = ((value >> 7) & 0x1f) as RegType;
    let rs1 = rd;
    let rs2 = ((value >> 2) & 0x1f) as RegType;
    let rdp = ((value >> 2) & 0x7) as RegType;
    let rs1p = ((value >> 7) & 0x7) as RegType;
    let rs2p = ((value >> 2) & 0x7) as RegType;
    let uimm = ((value >> 12) & 0x1) << 5 | ((value >> 11) & 0x1) << 4 | ((value >> 10) & 0x1)
        << 3 | ((value >> 6) & 0x1) << 2 | ((value >> 5) & 0x1) << 6;
    let funct2 = (value >> 10) & 0x3;
    let funct4 = (value >> 12) & 0x1;
    let j_imm = ((value >> 12) & 0x1) << 11 | ((value >> 11) & 0x1) << 4 | ((value >> 9) & 0x3)
        << 8 | ((value >> 8) & 0x1) << 10 | ((value >> 7) & 0x1) << 6 | ((value >> 6) & 0x1) << 7
        | ((value >> 3) & 0x7) << 1 | ((value >> 2) & 0x1) << 5;
    let j_imm = ((j_imm as i32) << 20) >> 20;
    let cl_imm = ((value >> 5) & 0x3) | ((value >> 10) & 0x7) << 3;
    let ci_imm = (((value >> 12) & 0x1) << 5 | ((value >> 2) & 0x1f)) as i32;
    let ci_imm = (ci_imm << 26) >> 26;
    if opcode == 0 {
        // Quadrant 0
        if funct3 == 0b000 {
            Ok(Inst::AddImmediate(8 + rdp, 2, ci_imm))
        } else if funct3 == 0b010 {
            Ok(Inst::LoadWord(8 + rdp, cl_imm as i32, 8 + rs1p))
        } else if funct3 == 0b110 {
            Ok(Inst::StoreWord(8 + rs2p, uimm as i32, 8 + rs1p))
        } else {
            Err(())
        }
    } else if opcode == 1 {
        // Quadrant 1
        if funct3 == 0b000 {
            if rd == 0 {
                Ok(Inst::Nop)
            } else {
                Ok(Inst::AddImmediate(rd, rd, ci_imm))
            }
        } else if funct3 == 0b001 {
            Ok(Inst::JumpAndLink(1, j_imm))
        } else if funct3 == 0b010 {
            Ok(Inst::LoadImmediate(rd, ci_imm))
        } else if funct3 == 0b011 {
            if rd == 2 {
                let imm = ((value >> 12) & 0x1) << 9 | ((value >> 6) & 0x1) << 4 | ((value >> 5)
                    & 0x1) << 6 | ((value >> 3) & 0x3) << 7 | ((value >> 2) & 0x1) << 5;
                let imm = ((imm as i32) << 22) >> 22;
                Ok(Inst::AddImmediate(2, 2, imm))
            } else {
                Ok(Inst::LoadUpperImmediate(rd, ci_imm * 0x1000))
            }
        } else if funct3 == 0b100 {
            if funct2 == 0b11 {
                let f2c = (value >> 5) & 0x3;
                if f2c == 0b00 {
                    Ok(Inst::Subtract(8 + rs1p, 8 + rs1p, 8 + rs2p))
                } else if f2c == 0b01 {
                    Ok(Inst::Xor(8 + rs1p, 8 + rs1p, 8 + rs2p))
                } else if f2c == 0b10 {
                    Ok(Inst::Or(8 + rs1p, 8 + rs1p, 8 + rs2p))
                } else {
                    Ok(Inst::And(8 + rs1p, 8 + rs1p, 8 + rs2p))
                }
            } else {
                let shamt = (((value >> 12) & 0x1) << 5 | ((value >> 2) & 0x1f)) as RegType;
                if funct2 == 0b00 {
                    Ok(Inst::ShiftRightLogical(8 + rs1p, 8 + rs1p, shamt))
                } else if funct2 == 0b01 {
                    Ok(Inst::ShiftRightArithmetic(8 + rs1p, 8 + rs1p, shamt))
                } else {
                    Err(())
                }
            }
        } else if funct3 == 0b101 {
            Ok(Inst::Jump(j_imm))
        } else {
            let offset = ((value >> 12) & 0x1) << 8 | ((value >> 10) & 0x3) << 3 | ((value >> 5)
                & 0x3) << 6 | ((value >> 3) & 0x3) << 1 | ((value >> 2) & 0x1) << 5;
            let offset = ((offset as i32) << 23) >> 23;
            if funct3 == 0b110 {
                Ok(Inst::BranchEquals(8 + rs1p, 0, offset))
            } else {
                Ok(Inst::BranchNotEquals(8 + rs1p, 0, offset))
            }
        }
    } else if opcode == 2 {
        // Quadrant 2
        if funct3 == 0b000 {
            let shamt = (((value >> 12) & 0x1) << 5 | ((value >> 2) & 0x1f)) as RegType;
            Ok(Inst::ShiftLeftLogical(rd, rd, shamt))
        } else if funct3 == 0b010 {
            let uimm = ((value >> 12) & 0x1) << 5 | ((value >> 6) & 0x1) << 4 | ((value >> 5)
                & 0x1) << 3 | ((value >> 4) & 0x1) << 2 | ((value >> 2) & 0x3) << 6;
            Ok(Inst::LoadWord(rd, uimm as i32, 2))
        } else if funct3 == 0b100 {
            if funct4 == 0 {
                if rs2 == 0 {
                    Ok(Inst::JumpAndLinkReturn(0, rs1, 0))
                } else {
                    Ok(Inst::Move(rd, rs2))
                }
            } else {
                if rs2 == 0 {
                    if rs1 == 0 {
                        Ok(Inst::Ecall)
                    } else {
                        Ok(Inst::JumpAndLinkReturn(1, rs1, 0))
                    }
                } else {
                    Ok(Inst::Add(rd, rd, rs2))
                }
            }
        } else if funct3 == 0b110 {
            let uimm = ((value >> 12) & 0x1) << 5 | ((value >> 11) & 0x1) << 4 | ((value >> 10)
                & 0x1) << 3 | ((value >> 9) & 0x1) << 2 | ((value >> 7) & 0x3) << 6;
            Ok(Inst::StoreWord(rs2, uimm as i32, 2))
        } else {
            Err(())
        }
    } else {
        Err(())
    }
}

} // verus!
