use vstd::prelude::*;

use crate::cpu::{inst_result, relative_target, Fault, InstOutcome, MachineState};
use crate::inst::Inst;
use crate::laws::{law_jump_lands_on_target, names_real_registers};

verus! {

// ---------------------------------------------------------------------------
// What the register operations compute, stated bit by bit and in modular
// arithmetic rather than through the machine's own formulas.

/// Bit `i` of `x`.
pub open spec fn bit(x: u32, i: u32) -> bool {
    (x >> i) & 1 == 1
}

proof fn lemma_bits(a: u32, b: u32, i: u32)
    by (bit_vector)
    requires
        i < 32,
    ensures
        bit(a & b, i) == (bit(a, i) && bit(b, i)),
        bit(a | b, i) == (bit(a, i) || bit(b, i)),
        bit(a ^ b, i) == (bit(a, i) != bit(b, i)),
        bit(!a, i) == !bit(a, i),
{
}

proof fn lemma_wrapping_sum(a: u32, imm: i32)
    by (bit_vector)
    ensures
        (((a as int + imm as int) as u32) as int - a as int - imm as int) % 0x1_0000_0000 == 0,
{
}

proof fn lemma_immediate_pattern(imm: i32)
    by (bit_vector)
    ensures
        (imm as u32) as int == (if imm < 0 {
            imm as int + 0x1_0000_0000
        } else {
            imm as int
        }),
        (imm as u32) as i32 == imm,
{
}

proof fn lemma_upper_immediate(imm: i32)
    by (bit_vector)
    ensures
        ((imm as u32) << 12u32) as int == (imm as int * 4096) % 0x1_0000_0000,
{
}

proof fn lemma_truncation(x: u64)
    by (bit_vector)
    ensures
        ((x as u32) as int - x as int) % 0x1_0000_0000 == 0,
{
}

/// `and`, `or`, `xor` and `not` work bit by bit: each of the 32 bits of `rd`
/// is the conjunction, disjunction, difference or negation of the same bits
/// of the operands. No other register changes and the next slot runs next.
pub proof fn law_logic_works_bit_by_bit(s: MachineState)
    requires
        s.valid(),
        s.pc < s.program.len(),
        names_real_registers(s.program[s.pc as int].1),
    ensures
        match s.program[s.pc as int].1 {
            Inst::And(rd, rs1, rs2) => inst_result(s) matches Ok((t, out)) && {
                &&& t == s.with_reg(rd, t.reg(rd))
                &&& out.advance
                &&& forall|i: u32|
                    i < 32 ==> #[trigger] bit(t.reg(rd), i) == (bit(s.reg(rs1), i) && bit(
                        s.reg(rs2),
                        i,
                    ))
            },
            Inst::Or(rd, rs1, rs2) => inst_result(s) matches Ok((t, out)) && {
                &&& t == s.with_reg(rd, t.reg(rd))
                &&& out.advance
                &&& forall|i: u32|
                    i < 32 ==> #[trigger] bit(t.reg(rd), i) == (bit(s.reg(rs1), i) || bit(
                        s.reg(rs2),
                        i,
                    ))
            },
            Inst::Xor(rd, rs1, rs2) => inst_result(s) matches Ok((t, out)) && {
                &&& t == s.with_reg(rd, t.reg(rd))
                &&& out.advance
                &&& forall|i: u32|
                    i < 32 ==> #[trigger] bit(t.reg(rd), i) == (bit(s.reg(rs1), i) != bit(
                        s.reg(rs2),
                        i,
                    ))
            },
            Inst::Not(rd, rs) => inst_result(s) matches Ok((t, out)) && {
                &&& t == s.with_reg(rd, t.reg(rd))
                &&& out.advance
                &&& forall|i: u32| i < 32 ==> #[trigger] bit(t.reg(rd), i) == !bit(s.reg(rs), i)
            },
            _ => true,
        },
{
    match s.program[s.pc as int].1 {
        Inst::And(rd, rs1, rs2) => {
            let (a, b) = (s.reg(rs1), s.reg(rs2));
            let t = s.with_reg(rd, a & b);
            assert(t.with_reg(rd, t.reg(rd)).x =~= t.x);
            assert forall|i: u32| i < 32 implies #[trigger] bit(t.reg(rd), i) == (bit(a, i) && bit(
                b,
                i,
            )) by {
                lemma_bits(a, b, i);
            }
        },
        Inst::Or(rd, rs1, rs2) => {
            let (a, b) = (s.reg(rs1), s.reg(rs2));
            let t = s.with_reg(rd, a | b);
            assert(t.with_reg(rd, t.reg(rd)).x =~= t.x);
            assert forall|i: u32| i < 32 implies #[trigger] bit(t.reg(rd), i) == (bit(a, i) || bit(
                b,
                i,
            )) by {
                lemma_bits(a, b, i);
            }
        },
        Inst::Xor(rd, rs1, rs2) => {
            let (a, b) = (s.reg(rs1), s.reg(rs2));
            let t = s.with_reg(rd, a ^ b);
            assert(t.with_reg(rd, t.reg(rd)).x =~= t.x);
            assert forall|i: u32| i < 32 implies #[trigger] bit(t.reg(rd), i) == (bit(a, i) != bit(
                b,
                i,
            )) by {
                lemma_bits(a, b, i);
            }
        },
        Inst::Not(rd, rs) => {
            let a = s.reg(rs);
            let t = s.with_reg(rd, !a);
            assert(t.with_reg(rd, t.reg(rd)).x =~= t.x);
            assert forall|i: u32| i < 32 implies #[trigger] bit(t.reg(rd), i) == !bit(a, i) by {
                lemma_bits(a, a, i);
            }
        },
        _ => {},
    }
}

/// The arithmetic and move instructions: `addi` adds modulo 2^32, `add`
/// adds exactly and faults where the sum leaves 32 bits, `mv` copies, `li`
/// loads the immediate's two's-complement pattern, `lui` loads the immediate
/// times 4096 modulo 2^32, and `auipc` adds the immediate to the absolute
/// address of the instruction modulo 2^32. No other register changes and
/// the next slot runs next.
pub proof fn law_arithmetic_results(s: MachineState)
    requires
        s.valid(),
        s.pc < s.program.len(),
        names_real_registers(s.program[s.pc as int].1),
    ensures
        match s.program[s.pc as int].1 {
            Inst::AddImmediate(rd, rs, imm) => inst_result(s) matches Ok((t, out)) && {
                &&& t == s.with_reg(rd, t.reg(rd))
                &&& out.advance
                &&& (t.reg(rd) - s.reg(rs) - imm) % 0x1_0000_0000 == 0
            },
            Inst::Add(rd, rs1, rs2) => if s.reg(rs1) + s.reg(rs2) <= u32::MAX {
                inst_result(s) matches Ok((t, out)) && {
                    &&& t == s.with_reg(rd, t.reg(rd))
                    &&& out.advance
                    &&& t.reg(rd) == s.reg(rs1) + s.reg(rs2)
                }
            } else {
                inst_result(s) == Err::<(MachineState, InstOutcome), Fault>(
                    Fault::Overflow,
                )
            },
            Inst::Move(rd, rs) => inst_result(s) matches Ok((t, out)) && {
                &&& t == s.with_reg(rd, s.reg(rs))
                &&& out.advance
            },
            Inst::LoadImmediate(rd, imm) => inst_result(s) matches Ok((t, out)) && {
                &&& t == s.with_reg(rd, t.reg(rd))
                &&& out.advance
                &&& t.reg(rd) as i32 == imm
            },
            Inst::LoadUpperImmediate(rd, imm) => inst_result(s) matches Ok((t, out)) && {
                &&& t == s.with_reg(rd, t.reg(rd))
                &&& out.advance
                &&& t.reg(rd) == (imm * 4096) % 0x1_0000_0000
            },
            Inst::AddUpperImmediateToPc(rd, imm) => {
                let address = s.program_start + s.program[s.pc as int].0;
                if address <= usize::MAX {
                    inst_result(s) matches Ok((t, out)) && {
                        &&& t == s.with_reg(rd, t.reg(rd))
                        &&& out.advance
                        &&& (t.reg(rd) - address - imm) % 0x1_0000_0000 == 0
                    }
                } else {
                    inst_result(s) == Err::<(MachineState, InstOutcome), Fault>(
                        Fault::Overflow,
                    )
                }
            },
            _ => true,
        },
{
    match s.program[s.pc as int].1 {
        Inst::AddImmediate(rd, rs, imm) => {
            let a = s.reg(rs);
            lemma_wrapping_sum(a, imm);
            let t = s.with_reg(rd, (a as int + imm as int) as u32);
            assert(t.with_reg(rd, t.reg(rd)).x =~= t.x);
        },
        Inst::Add(rd, rs1, rs2) => {
            let t = s.with_reg(rd, (s.reg(rs1) + s.reg(rs2)) as u32);
            assert(t.with_reg(rd, t.reg(rd)).x =~= t.x);
        },
        Inst::LoadImmediate(rd, imm) => {
            lemma_immediate_pattern(imm);
            let t = s.with_reg(rd, imm as u32);
            assert(t.with_reg(rd, t.reg(rd)).x =~= t.x);
        },
        Inst::LoadUpperImmediate(rd, imm) => {
            lemma_upper_immediate(imm);
            let t = s.with_reg(rd, (imm as u32) << 12u32);
            assert(t.with_reg(rd, t.reg(rd)).x =~= t.x);
        },
        Inst::AddUpperImmediateToPc(rd, imm) => {
            let address = s.program_start + s.program[s.pc as int].0;
            if address <= usize::MAX {
                let base = (address as usize) as u32;
                lemma_immediate_pattern(imm);
                lemma_truncation((address as usize) as u64);
                let t = s.with_reg(rd, base.wrapping_add(imm as u32));
                assert(t.with_reg(rd, t.reg(rd)).x =~= t.x);
            }
        },
        _ => {},
    }
}

/// The conditional branches follow their comparison (of the registers as
/// unsigned numbers): `bne` is taken exactly when the registers differ,
/// `blt` exactly when the first is below the second, `ble` exactly when it
/// is not above it. A branch not taken changes nothing and the next slot
/// runs next; a branch taken lands on a slot whose position is the branch's
/// own position plus the offset.
pub proof fn law_branches_follow_comparison(s: MachineState)
    requires
        s.valid(),
        s.pc < s.program.len(),
        names_real_registers(s.program[s.pc as int].1),
    ensures
        match s.program[s.pc as int].1 {
            Inst::BranchNotEquals(rs1, rs2, imm) => inst_result(s) matches Ok((t, out)) ==> {
                &&& (t.pc != s.pc) == (s.reg(rs1) != s.reg(rs2))
                &&& t.pc == s.pc ==> t == s && out.advance
                &&& t.pc != s.pc ==> t.pc < s.program.len() && s.position(t.pc as int) == s.position(
                    s.pc as int,
                ) + imm
            },
            Inst::BranchLessThan(rs1, rs2, imm) => inst_result(s) matches Ok((t, out)) ==> {
                &&& (t.pc != s.pc) == (s.reg(rs1) < s.reg(rs2))
                &&& t.pc == s.pc ==> t == s && out.advance
                &&& t.pc != s.pc ==> t.pc < s.program.len() && s.position(t.pc as int) == s.position(
                    s.pc as int,
                ) + imm
            },
            Inst::BranchLessEq(rs1, rs2, imm) => inst_result(s) matches Ok((t, out)) ==> {
                &&& (t.pc != s.pc) == (s.reg(rs1) <= s.reg(rs2))
                &&& t.pc == s.pc ==> t == s && out.advance
                &&& t.pc != s.pc ==> t.pc < s.program.len() && s.position(t.pc as int) == s.position(
                    s.pc as int,
                ) + imm
            },
            _ => true,
        },
{
    match s.program[s.pc as int].1 {
        Inst::BranchNotEquals(_, _, imm) | Inst::BranchLessThan(_, _, imm) | Inst::BranchLessEq(
            _,
            _,
            imm,
        ) => {
            if let Some(t) = relative_target(s, imm) {
                law_jump_lands_on_target(s, t);
            }
        },
        _ => {},
    }
}

} // verus!
