use vstd::prelude::*;

use crate::inst::{
    c_branch_offset, c_funct2, c_funct3, c_funct4, c_imm6, c_jump_offset, c_quadrant, c_shamt,
    c_stack_adjust, c_stack_load_offset, c_stack_store_offset, c_store_offset, decoded_compressed,
    decoded_word, to_signed, Inst,
};

verus! {

// ---------------------------------------------------------------------------
// The RV32 instruction formats, as encoders from fields to words. They are
// written from the base ISA's format table, independently of the decoder,
// so that decoding can be checked against them.

/// R-type: funct7 | rs2 | rs1 | funct3 | rd | opcode.
pub open spec fn r_type(funct7: u32, rs2: u32, rs1: u32, funct3: u32, rd: u32, opcode: u32) -> u32 {
    funct7 << 25u32 | rs2 << 20u32 | rs1 << 15u32 | funct3 << 12u32 | rd << 7u32 | opcode
}

/// I-type: imm[11:0] | rs1 | funct3 | rd | opcode.
pub open spec fn i_type(imm: i32, rs1: u32, funct3: u32, rd: u32, opcode: u32) -> u32 {
    ((imm as u32) & 0xfff) << 20u32 | rs1 << 15u32 | funct3 << 12u32 | rd << 7u32 | opcode
}

/// S-type: imm[11:5] | rs2 | rs1 | funct3 | imm[4:0] | opcode.
pub open spec fn s_type(imm: i32, rs2: u32, rs1: u32, funct3: u32, opcode: u32) -> u32 {
    (((imm as u32) >> 5u32) & 0x7f) << 25u32 | rs2 << 20u32 | rs1 << 15u32 | funct3 << 12u32 | ((
    imm as u32) & 0x1f) << 7u32 | opcode
}

/// B-type: imm[12] | imm[10:5] | rs2 | rs1 | funct3 | imm[4:1] | imm[11] | opcode.
pub open spec fn b_type(imm: i32, rs2: u32, rs1: u32, funct3: u32, opcode: u32) -> u32 {
    (((imm as u32) >> 12u32) & 0x1) << 31u32 | (((imm as u32) >> 5u32) & 0x3f) << 25u32 | rs2
        << 20u32 | rs1 << 15u32 | funct3 << 12u32 | (((imm as u32) >> 1u32) & 0xf) << 8u32 | (((
    imm as u32) >> 11u32) & 0x1) << 7u32 | opcode
}

/// U-type: imm[31:12] | rd | opcode.
pub open spec fn u_type(imm: i32, rd: u32, opcode: u32) -> u32 {
    ((imm as u32) & 0xfffff000) | rd << 7u32 | opcode
}

/// J-type: imm[20] | imm[10:1] | imm[11] | imm[19:12] | rd | opcode.
pub open spec fn j_type(imm: i32, rd: u32, opcode: u32) -> u32 {
    (((imm as u32) >> 20u32) & 0x1) << 31u32 | (((imm as u32) >> 1u32) & 0x3ff) << 21u32 | (((
    imm as u32) >> 11u32) & 0x1) << 20u32 | (((imm as u32) >> 12u32) & 0xff) << 12u32 | rd
        << 7u32 | opcode
}

/// The standard encoding of an instruction that has a 32-bit form, if its
/// operands fit: registers below 32, twelve-bit signed immediates, even
/// thirteen-bit branch offsets, even 21-bit jump offsets, upper immediates
/// that are multiples of 4096.
pub open spec fn word_encoding(inst: Inst) -> Option<u32> {
    let reg = |r: u8| (r as int) < 32;
    let imm12 = |i: i32| -2048 <= i <= 2047;
    match inst {
        Inst::AddUpperImmediateToPc(rd, i) => if reg(rd) && i % 4096 == 0 {
            Some(u_type(i, rd as u32, 0x17))
        } else {
            None
        },
        Inst::LoadUpperImmediate(rd, i) => if reg(rd) && i % 4096 == 0 {
            Some(u_type(i, rd as u32, 0x37))
        } else {
            None
        },
        Inst::LoadWord(rd, i, rs1) => if reg(rd) && reg(rs1) && imm12(i) {
            Some(i_type(i, rs1 as u32, 0b010, rd as u32, 0x03))
        } else {
            None
        },
        Inst::StoreWord(rs2, i, rs1) => if reg(rs2) && reg(rs1) && imm12(i) {
            Some(s_type(i, rs2 as u32, rs1 as u32, 0b010, 0x23))
        } else {
            None
        },
        Inst::AddImmediate(rd, rs1, i) => if reg(rd) && reg(rs1) && imm12(i) {
            Some(i_type(i, rs1 as u32, 0b000, rd as u32, 0x13))
        } else {
            None
        },
        Inst::XorImm(rd, rs1, i) => if reg(rd) && reg(rs1) && imm12(i) {
            Some(i_type(i, rs1 as u32, 0b100, rd as u32, 0x13))
        } else {
            None
        },
        Inst::JumpAndLinkReturn(rd, rs1, i) => if reg(rd) && reg(rs1) && imm12(i) {
            Some(i_type(i, rs1 as u32, 0b000, rd as u32, 0x67))
        } else {
            None
        },
        Inst::Add(rd, rs1, rs2) => if reg(rd) && reg(rs1) && reg(rs2) {
            Some(r_type(0, rs2 as u32, rs1 as u32, 0b000, rd as u32, 0x33))
        } else {
            None
        },
        Inst::Xor(rd, rs1, rs2) => if reg(rd) && reg(rs1) && reg(rs2) {
            Some(r_type(0, rs2 as u32, rs1 as u32, 0b100, rd as u32, 0x33))
        } else {
            None
        },
        Inst::Or(rd, rs1, rs2) => if reg(rd) && reg(rs1) && reg(rs2) {
            Some(r_type(0, rs2 as u32, rs1 as u32, 0b110, rd as u32, 0x33))
        } else {
            None
        },
        Inst::And(rd, rs1, rs2) => if reg(rd) && reg(rs1) && reg(rs2) {
            Some(r_type(0, rs2 as u32, rs1 as u32, 0b111, rd as u32, 0x33))
        } else {
            None
        },
        Inst::BranchLessThan(rs1, rs2, i) => if reg(rs1) && reg(rs2) && i % 2 == 0 && -4096 <= i
            <= 4094 {
            Some(b_type(i, rs2 as u32, rs1 as u32, 0b100, 0x63))
        } else {
            None
        },
        Inst::BranchNotEquals(rs1, rs2, i) => if reg(rs1) && reg(rs2) && i % 2 == 0 && -4096
            <= i <= 4094 {
            Some(b_type(i, rs2 as u32, rs1 as u32, 0b001, 0x63))
        } else {
            None
        },
        Inst::JumpAndLink(rd, i) => if reg(rd) && i % 2 == 0 && -1048576 <= i <= 1048574 {
            Some(j_type(i, rd as u32, 0x6f))
        } else {
            None
        },
        Inst::Ecall => Some(0x73u32),
        _ => None,
    }
}

proof fn lemma_r_type(w: u32, funct7: u32, rs2: u32, rs1: u32, funct3: u32, rd: u32, opcode: u32)
    by (bit_vector)
    requires
        w == r_type(funct7, rs2, rs1, funct3, rd, opcode),
        funct7 < 128,
        rs2 < 32,
        rs1 < 32,
        funct3 < 8,
        rd < 32,
        opcode < 128,
    ensures
        w & 0x7f == opcode,
        (w >> 7u32) & 0x1f == rd,
        (w >> 12u32) & 0x7 == funct3,
        (w >> 15u32) & 0x1f == rs1,
        (w >> 20u32) & 0x1f == rs2,
        w >> 25u32 == funct7,
{
}

proof fn lemma_i_type(w: u32, imm: i32, rs1: u32, funct3: u32, rd: u32, opcode: u32)
    by (bit_vector)
    requires
        w == i_type(imm, rs1, funct3, rd, opcode),
        -2048 <= imm <= 2047,
        rs1 < 32,
        funct3 < 8,
        rd < 32,
        opcode < 128,
    ensures
        w & 0x7f == opcode,
        (w >> 7u32) & 0x1f == rd,
        (w >> 12u32) & 0x7 == funct3,
        (w >> 15u32) & 0x1f == rs1,
        to_signed((w >> 20u32) as int, 0x800) == imm as int,
{
}

proof fn lemma_s_type(w: u32, imm: i32, rs2: u32, rs1: u32, funct3: u32, opcode: u32)
    by (bit_vector)
    requires
        w == s_type(imm, rs2, rs1, funct3, opcode),
        -2048 <= imm <= 2047,
        rs2 < 32,
        rs1 < 32,
        funct3 < 8,
        opcode < 128,
    ensures
        w & 0x7f == opcode,
        (w >> 12u32) & 0x7 == funct3,
        (w >> 15u32) & 0x1f == rs1,
        (w >> 20u32) & 0x1f == rs2,
        to_signed(((w >> 7u32) & 0x1f) + (w >> 25u32) * 0x20, 0x800) == imm as int,
{
}

proof fn lemma_b_type(w: u32, imm: i32, rs2: u32, rs1: u32, funct3: u32, opcode: u32)
    by (bit_vector)
    requires
        w == b_type(imm, rs2, rs1, funct3, opcode),
        -4096 <= imm <= 4094,
        imm & 1 == 0,
        rs2 < 32,
        rs1 < 32,
        funct3 < 8,
        opcode < 128,
    ensures
        w & 0x7f == opcode,
        (w >> 12u32) & 0x7 == funct3,
        (w >> 15u32) & 0x1f == rs1,
        (w >> 20u32) & 0x1f == rs2,
        to_signed(
            ((w >> 8u32) & 0xf) * 0x2 + ((w >> 25u32) & 0x3f) * 0x20 + ((w >> 7u32) & 0x1) * 0x800
                + ((w >> 31u32) & 0x1) * 0x1000,
            0x1000,
        ) == imm as int,
{
}

proof fn lemma_u_type(w: u32, imm: i32, rd: u32, opcode: u32)
    by (bit_vector)
    requires
        w == u_type(imm, rd, opcode),
        imm & 0xfff == 0,
        rd < 32,
        opcode < 128,
    ensures
        w & 0x7f == opcode,
        (w >> 7u32) & 0x1f == rd,
        (w & 0xfffff000) as i32 == imm,
{
}

proof fn lemma_j_type(w: u32, imm: i32, rd: u32, opcode: u32)
    by (bit_vector)
    requires
        w == j_type(imm, rd, opcode),
        -1048576 <= imm <= 1048574,
        imm & 1 == 0,
        rd < 32,
        opcode < 128,
    ensures
        w & 0x7f == opcode,
        (w >> 7u32) & 0x1f == rd,
        (w >> 12u32) & 0x7 == ((imm as u32) >> 12u32) & 0x7,
        to_signed(
            ((w >> 21u32) & 0x3ff) * 0x2 + ((w >> 20u32) & 0x1) * 0x800 + ((w >> 12u32) & 0xff)
                * 0x1000 + ((w >> 31u32) & 0x1) * 0x100000,
            0x100000,
        ) == imm as int,
{
}

proof fn lemma_even_and_multiple(i: i32)
    by (bit_vector)
    ensures
        (i % 2 == 0) == (i & 1 == 0),
        (i % 4096 == 0) == (i & 0xfff == 0),
{
}

/// Decoding undoes encoding: every instruction with a standard 32-bit
/// encoding whose operands fit decodes from that encoding to itself.
pub proof fn law_word_decoding_inverts_encoding(inst: Inst)
    ensures
        word_encoding(inst) matches Some(w) ==> decoded_word(w) == Ok::<Inst, ()>(inst),
{
    match inst {
        Inst::AddUpperImmediateToPc(rd, i) => {
            lemma_even_and_multiple(i);
            if let Some(w) = word_encoding(inst) {
                lemma_u_type(w, i, rd as u32, 0x17);
            }
        },
        Inst::LoadUpperImmediate(rd, i) => {
            lemma_even_and_multiple(i);
            if let Some(w) = word_encoding(inst) {
                lemma_u_type(w, i, rd as u32, 0x37);
            }
        },
        Inst::LoadWord(rd, i, rs1) => {
            if let Some(w) = word_encoding(inst) {
                lemma_i_type(w, i, rs1 as u32, 0b010, rd as u32, 0x03);
            }
        },
        Inst::AddImmediate(rd, rs1, i) => {
            if let Some(w) = word_encoding(inst) {
                lemma_i_type(w, i, rs1 as u32, 0b000, rd as u32, 0x13);
            }
        },
        Inst::XorImm(rd, rs1, i) => {
            if let Some(w) = word_encoding(inst) {
                lemma_i_type(w, i, rs1 as u32, 0b100, rd as u32, 0x13);
            }
        },
        Inst::JumpAndLinkReturn(rd, rs1, i) => {
            if let Some(w) = word_encoding(inst) {
                lemma_i_type(w, i, rs1 as u32, 0b000, rd as u32, 0x67);
            }
        },
        Inst::StoreWord(rs2, i, rs1) => {
            if let Some(w) = word_encoding(inst) {
                lemma_s_type(w, i, rs2 as u32, rs1 as u32, 0b010, 0x23);
            }
        },
        Inst::Add(rd, rs1, rs2) => {
            if let Some(w) = word_encoding(inst) {
                lemma_r_type(w, 0, rs2 as u32, rs1 as u32, 0b000, rd as u32, 0x33);
            }
        },
        Inst::Xor(rd, rs1, rs2) => {
            if let Some(w) = word_encoding(inst) {
                lemma_r_type(w, 0, rs2 as u32, rs1 as u32, 0b100, rd as u32, 0x33);
            }
        },
        Inst::Or(rd, rs1, rs2) => {
            if let Some(w) = word_encoding(inst) {
                lemma_r_type(w, 0, rs2 as u32, rs1 as u32, 0b110, rd as u32, 0x33);
            }
        },
        Inst::And(rd, rs1, rs2) => {
            if let Some(w) = word_encoding(inst) {
                lemma_r_type(w, 0, rs2 as u32, rs1 as u32, 0b111, rd as u32, 0x33);
            }
        },
        Inst::BranchLessThan(rs1, rs2, i) => {
            lemma_even_and_multiple(i);
            if let Some(w) = word_encoding(inst) {
                lemma_b_type(w, i, rs2 as u32, rs1 as u32, 0b100, 0x63);
            }
        },
        Inst::BranchNotEquals(rs1, rs2, i) => {
            lemma_even_and_multiple(i);
            if let Some(w) = word_encoding(inst) {
                lemma_b_type(w, i, rs2 as u32, rs1 as u32, 0b001, 0x63);
            }
        },
        Inst::JumpAndLink(rd, i) => {
            lemma_even_and_multiple(i);
            if let Some(w) = word_encoding(inst) {
                lemma_j_type(w, i, rd as u32, 0x6f);
            }
        },
        Inst::Ecall => {
            assert(0x73u32 & 0x7f == 0x73) by (bit_vector);
        },
        _ => {},
    }
}

// ---------------------------------------------------------------------------
// The RVC (compressed) formats, as encoders from fields to halfwords, written
// from the compressed-instruction format table. A register written `p` is
// one of the eight registers x8..x15, given by its number less eight.

/// CA: funct6 = 100011 | rd'/rs1' | funct2 | rs2' | 01.
pub open spec fn ca_type(funct2: u16, rdp: u16, rs2p: u16) -> u16 {
    0x8c01u16 | rdp << 7u16 | funct2 << 5u16 | rs2p << 2u16
}

/// CR: funct4 | rd/rs1 | rs2 | 10.
pub open spec fn cr_type(funct4: u16, rd: u16, rs2: u16) -> u16 {
    funct4 << 12u16 | rd << 7u16 | rs2 << 2u16 | 0b10u16
}

/// CI: funct3 | imm[5] | rd/rs1 | imm[4:0] | op.
pub open spec fn ci_type(funct3: u16, imm: i32, rd: u16, op: u16) -> u16 {
    funct3 << 13u16 | (((imm as u16) >> 5u16) & 0x1) << 12u16 | rd << 7u16 | ((imm as u16)
        & 0x1f) << 2u16 | op
}

/// C.ADDI16SP: 011 | nzimm[9] | 00010 | nzimm[4|6|8:7|5] | 01.
pub open spec fn c_addi16sp(imm: i32) -> u16 {
    let i = imm as u16;
    0b011u16 << 13u16 | ((i >> 9u16) & 0x1) << 12u16 | 2u16 << 7u16 | ((i >> 4u16) & 0x1)
        << 6u16 | ((i >> 6u16) & 0x1) << 5u16 | ((i >> 7u16) & 0x3) << 3u16 | ((i >> 5u16) & 0x1)
        << 2u16 | 0b01u16
}

/// CJ: funct3 | offset[11|4|9:8|10|6|7|3:1|5] | 01.
pub open spec fn cj_type(funct3: u16, offset: i32) -> u16 {
    let o = offset as u16;
    funct3 << 13u16 | ((o >> 11u16) & 0x1) << 12u16 | ((o >> 4u16) & 0x1) << 11u16 | ((o
        >> 8u16) & 0x3) << 9u16 | ((o >> 10u16) & 0x1) << 8u16 | ((o >> 6u16) & 0x1) << 7u16 | ((o
        >> 7u16) & 0x1) << 6u16 | ((o >> 1u16) & 0x7) << 3u16 | ((o >> 5u16) & 0x1) << 2u16
        | 0b01u16
}

/// CB (branches): funct3 | offset[8|4:3] | rs1' | offset[7:6|2:1|5] | 01.
pub open spec fn cb_branch(funct3: u16, offset: i32, rs1p: u16) -> u16 {
    let o = offset as u16;
    funct3 << 13u16 | ((o >> 8u16) & 0x1) << 12u16 | ((o >> 3u16) & 0x3) << 10u16 | rs1p
        << 7u16 | ((o >> 6u16) & 0x3) << 5u16 | ((o >> 1u16) & 0x3) << 3u16 | ((o >> 5u16) & 0x1)
        << 2u16 | 0b01u16
}

/// CB (shifts): 100 | shamt[5] | funct2 | rd'/rs1' | shamt[4:0] | 01.
pub open spec fn cb_shift(funct2: u16, shamt: u16, rdp: u16) -> u16 {
    0b100u16 << 13u16 | ((shamt >> 5u16) & 0x1) << 12u16 | funct2 << 10u16 | rdp << 7u16 | (
    shamt & 0x1f) << 2u16 | 0b01u16
}

/// C.LWSP: 010 | offset[5] | rd | offset[4:2|7:6] | 10.
pub open spec fn c_lwsp(offset: i32, rd: u16) -> u16 {
    let o = offset as u16;
    0b010u16 << 13u16 | ((o >> 5u16) & 0x1) << 12u16 | rd << 7u16 | ((o >> 2u16) & 0x7) << 4u16
        | ((o >> 6u16) & 0x3) << 2u16 | 0b10u16
}

/// C.SWSP: 110 | offset[5:2|7:6] | rs2 | 10.
pub open spec fn c_swsp(offset: i32, rs2: u16) -> u16 {
    let o = offset as u16;
    0b110u16 << 13u16 | ((o >> 2u16) & 0xf) << 9u16 | ((o >> 6u16) & 0x3) << 7u16 | rs2 << 2u16
        | 0b10u16
}

/// C.SW: 110 | offset[5:3] | rs1' | offset[2|6] | rs2' | 00.
pub open spec fn c_sw(offset: i32, rs1p: u16, rs2p: u16) -> u16 {
    let o = offset as u16;
    0b110u16 << 13u16 | ((o >> 3u16) & 0x7) << 10u16 | rs1p << 7u16 | ((o >> 2u16) & 0x1)
        << 6u16 | ((o >> 6u16) & 0x1) << 5u16 | rs2p << 2u16
}

/// Whether `r` is one of x8..x15, the registers that a three-bit (primed)
/// register field names.
pub open spec fn prime_register(r: u8) -> bool {
    8 <= r < 16
}

/// The compressed encoding of an instruction that has one in RV32C, if its
/// operands fit. (Of the forms this machine decodes, the quadrant-0
/// `c.addi4spn` and `c.lw` and the `c.ebreak` slot are read otherwise than
/// RV32C reads them, and are left out.)
pub open spec fn compressed_encoding(inst: Inst) -> Option<u16> {
    let reg = |r: u8| (r as int) < 32;
    let nonzero = |r: u8| 0 < r < 32;
    match inst {
        Inst::Subtract(a, b, c) => if a == b && prime_register(a) && prime_register(c) {
            Some(ca_type(0b00, (a - 8) as u16, (c - 8) as u16))
        } else {
            None
        },
        Inst::Xor(a, b, c) => if a == b && prime_register(a) && prime_register(c) {
            Some(ca_type(0b01, (a - 8) as u16, (c - 8) as u16))
        } else {
            None
        },
        Inst::Or(a, b, c) => if a == b && prime_register(a) && prime_register(c) {
            Some(ca_type(0b10, (a - 8) as u16, (c - 8) as u16))
        } else {
            None
        },
        Inst::And(a, b, c) => if a == b && prime_register(a) && prime_register(c) {
            Some(ca_type(0b11, (a - 8) as u16, (c - 8) as u16))
        } else {
            None
        },
        Inst::Move(rd, rs) => if nonzero(rd) && nonzero(rs) {
            Some(cr_type(0b1000, rd as u16, rs as u16))
        } else {
            None
        },
        Inst::Add(a, b, c) => if a == b && nonzero(a) && nonzero(c) {
            Some(cr_type(0b1001, a as u16, c as u16))
        } else {
            None
        },
        Inst::JumpAndLinkReturn(rd, rs, imm) => if rd == 0 && nonzero(rs) && imm == 0 {
            Some(cr_type(0b1000, rs as u16, 0))
        } else if rd == 1 && nonzero(rs) && imm == 0 {
            Some(cr_type(0b1001, rs as u16, 0))
        } else {
            None
        },
        Inst::Nop => Some(0x0001u16),
        Inst::AddImmediate(a, b, imm) => if a == b && nonzero(a) && -32 <= imm <= 31 {
            Some(ci_type(0b000, imm, a as u16, 0b01))
        } else if a == 2 && b == 2 && imm % 16 == 0 && -512 <= imm <= 496 && imm != 0 {
            Some(c_addi16sp(imm))
        } else {
            None
        },
        Inst::LoadImmediate(rd, imm) => if reg(rd) && -32 <= imm <= 31 {
            Some(ci_type(0b010, imm, rd as u16, 0b01))
        } else {
            None
        },
        Inst::LoadUpperImmediate(rd, imm) => if reg(rd) && rd != 2 && imm % 4096 == 0 && -131072
            <= imm <= 126976 {
            Some(ci_type(0b011, (imm / 4096) as i32, rd as u16, 0b01))
        } else {
            None
        },
        Inst::JumpAndLink(rd, offset) => if rd == 1 && offset % 2 == 0 && -2048 <= offset <= 2046 {
            Some(cj_type(0b001, offset))
        } else {
            None
        },
        Inst::Jump(offset) => if offset % 2 == 0 && -2048 <= offset <= 2046 {
            Some(cj_type(0b101, offset))
        } else {
            None
        },
        Inst::BranchEquals(r, zero, offset) => if prime_register(r) && zero == 0 && offset % 2 == 0
            && -256 <= offset <= 254 {
            Some(cb_branch(0b110, offset, (r - 8) as u16))
        } else {
            None
        },
        Inst::BranchNotEquals(r, zero, offset) => if prime_register(r) && zero == 0 && offset % 2 == 0
            && -256 <= offset <= 254 {
            Some(cb_branch(0b111, offset, (r - 8) as u16))
        } else {
            None
        },
        Inst::ShiftRightLogical(a, b, shamt) => if a == b && prime_register(a) && shamt < 32 {
            Some(cb_shift(0b00, shamt as u16, (a - 8) as u16))
        } else {
            None
        },
        Inst::ShiftRightArithmetic(a, b, shamt) => if a == b && prime_register(a) && shamt < 32 {
            Some(cb_shift(0b01, shamt as u16, (a - 8) as u16))
        } else {
            None
        },
        Inst::ShiftLeftLogical(a, b, shamt) => if a == b && reg(a) && shamt < 32 {
            Some(ci_type(0b000, shamt as i32, a as u16, 0b10))
        } else {
            None
        },
        Inst::LoadWord(rd, offset, base) => if reg(rd) && base == 2 && offset % 4 == 0 && 0
            <= offset <= 252 {
            Some(c_lwsp(offset, rd as u16))
        } else {
            None
        },
        Inst::StoreWord(rs2, offset, base) => if base == 2 && reg(rs2) && offset % 4 == 0 && 0
            <= offset <= 252 {
            Some(c_swsp(offset, rs2 as u16))
        } else if prime_register(base) && prime_register(rs2) && offset % 4 == 0 && 0 <= offset <= 124 {
            Some(c_sw(offset, (base - 8) as u16, (rs2 - 8) as u16))
        } else {
            None
        },
        _ => None,
    }
}

proof fn lemma_ca_type(h: u16, funct2: u16, rdp: u16, rs2p: u16)
    by (bit_vector)
    requires
        h == ca_type(funct2, rdp, rs2p),
        funct2 < 4,
        rdp < 8,
        rs2p < 8,
    ensures
        c_quadrant(h) == 1,
        c_funct3(h) == 0b100,
        c_funct2(h) == 0b11,
        (h >> 5u16) & 0x3 == funct2,
        (h >> 7u16) & 0x7 == rdp,
        (h >> 2u16) & 0x7 == rs2p,
{
}

proof fn lemma_cr_type(h: u16, funct4: u16, rd: u16, rs2: u16)
    by (bit_vector)
    requires
        h == cr_type(funct4, rd, rs2),
        funct4 == 0b1000 || funct4 == 0b1001,
        rd < 32,
        rs2 < 32,
    ensures
        c_quadrant(h) == 2,
        c_funct3(h) == 0b100,
        funct4 == 0b1000 ==> c_funct4(h) == 0,
        funct4 == 0b1001 ==> c_funct4(h) == 1,
        (h >> 7u16) & 0x1f == rd,
        (h >> 2u16) & 0x1f == rs2,
{
}

proof fn lemma_ci_type(h: u16, funct3: u16, imm: i32, rd: u16, op: u16)
    by (bit_vector)
    requires
        h == ci_type(funct3, imm, rd, op),
        funct3 < 8,
        -32 <= imm <= 31,
        rd < 32,
        op < 3,
    ensures
        c_quadrant(h) == op,
        c_funct3(h) == funct3,
        (h >> 7u16) & 0x1f == rd,
        c_imm6(h) == imm as int,
        0 <= imm ==> c_shamt(h) as int == imm as int,
{
}

proof fn lemma_c_addi16sp(h: u16, imm: i32)
    by (bit_vector)
    requires
        h == c_addi16sp(imm),
        imm % 16 == 0,
        -512 <= imm <= 496,
    ensures
        c_quadrant(h) == 1,
        c_funct3(h) == 0b011,
        (h >> 7u16) & 0x1f == 2,
        c_stack_adjust(h) == imm as int,
{
}

proof fn lemma_cj_type(h: u16, funct3: u16, offset: i32)
    by (bit_vector)
    requires
        h == cj_type(funct3, offset),
        funct3 < 8,
        offset % 2 == 0,
        -2048 <= offset <= 2046,
    ensures
        c_quadrant(h) == 1,
        c_funct3(h) == funct3,
        c_jump_offset(h) == offset as int,
{
}

proof fn lemma_cb_branch(h: u16, funct3: u16, offset: i32, rs1p: u16)
    by (bit_vector)
    requires
        h == cb_branch(funct3, offset, rs1p),
        funct3 < 8,
        offset % 2 == 0,
        -256 <= offset <= 254,
        rs1p < 8,
    ensures
        c_quadrant(h) == 1,
        c_funct3(h) == funct3,
        (h >> 7u16) & 0x7 == rs1p,
        c_branch_offset(h) == offset as int,
{
}

proof fn lemma_cb_shift(h: u16, funct2: u16, shamt: u16, rdp: u16)
    by (bit_vector)
    requires
        h == cb_shift(funct2, shamt, rdp),
        funct2 < 2,
        shamt < 32,
        rdp < 8,
    ensures
        c_quadrant(h) == 1,
        c_funct3(h) == 0b100,
        c_funct2(h) == funct2,
        (h >> 7u16) & 0x7 == rdp,
        c_shamt(h) as u16 == shamt,
{
}

proof fn lemma_c_lwsp(h: u16, offset: i32, rd: u16)
    by (bit_vector)
    requires
        h == c_lwsp(offset, rd),
        offset % 4 == 0,
        0 <= offset <= 252,
        rd < 32,
    ensures
        c_quadrant(h) == 2,
        c_funct3(h) == 0b010,
        (h >> 7u16) & 0x1f == rd,
        c_stack_load_offset(h) == offset as int,
{
}

proof fn lemma_c_swsp(h: u16, offset: i32, rs2: u16)
    by (bit_vector)
    requires
        h == c_swsp(offset, rs2),
        offset % 4 == 0,
        0 <= offset <= 252,
        rs2 < 32,
    ensures
        c_quadrant(h) == 2,
        c_funct3(h) == 0b110,
        (h >> 2u16) & 0x1f == rs2,
        c_stack_store_offset(h) == offset as int,
{
}

proof fn lemma_c_sw(h: u16, offset: i32, rs1p: u16, rs2p: u16)
    by (bit_vector)
    requires
        h == c_sw(offset, rs1p, rs2p),
        offset % 4 == 0,
        0 <= offset <= 124,
        rs1p < 8,
        rs2p < 8,
    ensures
        c_quadrant(h) == 0,
        c_funct3(h) == 0b110,
        (h >> 7u16) & 0x7 == rs1p,
        (h >> 2u16) & 0x7 == rs2p,
        c_store_offset(h) == offset as int,
{
}


/// Decoding undoes compressed encoding: every instruction with an RV32C
/// encoding whose operands fit decodes from that halfword to itself. In
/// particular `c.sub`, `c.xor`, `c.or` and `c.and` (funct2 00, 01, 10, 11
/// in bits 6..5) decode to `Subtract`, `Xor`, `Or` and `And`.
pub proof fn law_compressed_decoding_inverts_encoding(inst: Inst)
    ensures
        compressed_encoding(inst) matches Some(h) ==> decoded_compressed(h) == Ok::<Inst, ()>(
            inst,
        ),
{
    if let Some(h) = compressed_encoding(inst) {
        match inst {
            Inst::Subtract(a, _, c) => lemma_ca_type(h, 0b00, (a - 8) as u16, (c - 8) as u16),
            Inst::Xor(a, _, c) => lemma_ca_type(h, 0b01, (a - 8) as u16, (c - 8) as u16),
            Inst::Or(a, _, c) => lemma_ca_type(h, 0b10, (a - 8) as u16, (c - 8) as u16),
            Inst::And(a, _, c) => lemma_ca_type(h, 0b11, (a - 8) as u16, (c - 8) as u16),
            Inst::Move(rd, rs) => lemma_cr_type(h, 0b1000, rd as u16, rs as u16),
            Inst::Add(a, _, c) => lemma_cr_type(h, 0b1001, a as u16, c as u16),
            Inst::JumpAndLinkReturn(rd, rs, _) => {
                if rd == 0 {
                    lemma_cr_type(h, 0b1000, rs as u16, 0);
                } else {
                    lemma_cr_type(h, 0b1001, rs as u16, 0);
                }
            },
            Inst::Nop => {
                assert(c_quadrant(h) == 1 && c_funct3(h) == 0 && (h >> 7u16) & 0x1f == 0)
                    by (bit_vector)
                    requires
                        h == 0x0001u16,
                ;
            },
            Inst::AddImmediate(a, b, imm) => {
                if a == b && 0 < a < 32 && -32 <= imm <= 31 {
                    lemma_ci_type(h, 0b000, imm, a as u16, 0b01);
                } else {
                    lemma_c_addi16sp(h, imm);
                }
            },
            Inst::LoadImmediate(rd, imm) => lemma_ci_type(h, 0b010, imm, rd as u16, 0b01),
            Inst::LoadUpperImmediate(rd, imm) => {
                let k = (imm / 4096) as i32;
                lemma_ci_type(h, 0b011, k, rd as u16, 0b01);
                assert(k * 4096 == imm);
            },
            Inst::JumpAndLink(_, offset) => lemma_cj_type(h, 0b001, offset),
            Inst::Jump(offset) => lemma_cj_type(h, 0b101, offset),
            Inst::BranchEquals(r, _, offset) => lemma_cb_branch(h, 0b110, offset, (r - 8) as u16),
            Inst::BranchNotEquals(r, _, offset) => lemma_cb_branch(
                h,
                0b111,
                offset,
                (r - 8) as u16,
            ),
            Inst::ShiftRightLogical(a, _, shamt) => lemma_cb_shift(
                h,
                0b00,
                shamt as u16,
                (a - 8) as u16,
            ),
            Inst::ShiftRightArithmetic(a, _, shamt) => lemma_cb_shift(
                h,
                0b01,
                shamt as u16,
                (a - 8) as u16,
            ),
            Inst::ShiftLeftLogical(a, _, shamt) => lemma_ci_type(
                h,
                0b000,
                shamt as i32,
                a as u16,
                0b10,
            ),
            Inst::LoadWord(rd, offset, _) => lemma_c_lwsp(h, offset, rd as u16),
            Inst::StoreWord(rs2, offset, base) => {
                if base == 2 && rs2 < 32 && offset % 4 == 0 && 0 <= offset <= 252 {
                    lemma_c_swsp(h, offset, rs2 as u16);
                } else {
                    lemma_c_sw(h, offset, (base - 8) as u16, (rs2 - 8) as u16);
                }
            },
            _ => {},
        }
    }
}

} // verus!
