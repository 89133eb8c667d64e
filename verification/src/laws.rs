use vstd::prelude::*;

use crate::cpu::{
    entry_slot, inst_result, jump_target, raw_offset, relative_target, run_result, step_result,
    with_program, walk,
    Fault, InstOutcome, MachineState, RunStop, REGISTER_COUNT,
};
use crate::debug::{debug_result, DebugAction, DebugCommand};
use crate::elf::{load_result, ElfModel};
use crate::inst::{decoded_compressed, decoded_raw, decoded_word, Inst};
use crate::program::{raw_insts, word_of_halves, RawInst};

verus! {

/// Whether every register that `inst` names is one of the 32 registers. (The
/// compressed shifts carry a shift amount, not a register, in their third
/// field.)
pub open spec fn names_real_registers(inst: Inst) -> bool {
    let ok = |r: u8| (r as int) < REGISTER_COUNT;
    match inst {
        Inst::Print(r) => ok(r),
        Inst::LoadWord(a, _, b) | Inst::StoreWord(a, _, b) => ok(a) && ok(b),
        Inst::LoadImmediate(a, _) | Inst::LoadUpperImmediate(a, _) | Inst::AddUpperImmediateToPc(a, _)
        | Inst::JumpAndLink(a, _) => ok(a),
        Inst::Move(a, b) | Inst::Not(a, b) => ok(a) && ok(b),
        Inst::AddImmediate(a, b, _) | Inst::XorImm(a, b, _) | Inst::JumpAndLinkReturn(a, b, _)
        | Inst::BranchEquals(a, b, _) | Inst::BranchNotEquals(a, b, _) | Inst::BranchLessThan(a, b, _)
        | Inst::BranchGreaterThan(a, b, _) | Inst::BranchLessEq(a, b, _) | Inst::BranchGreaterEq(
            a,
            b,
            _,
        ) => ok(a) && ok(b),
        Inst::Add(a, b, c) | Inst::Subtract(a, b, c) | Inst::Multiply(a, b, c) | Inst::Divide(a, b, c)
        | Inst::Remainder(a, b, c) | Inst::And(a, b, c) | Inst::Or(a, b, c) | Inst::Xor(a, b, c) => ok(
            a,
        ) && ok(b) && ok(c),
        Inst::ShiftLeftLogical(a, b, _) | Inst::ShiftRightLogical(a, b, _)
        | Inst::ShiftRightArithmetic(a, b, _) => ok(a) && ok(b),
        _ => true,
    }
}

proof fn lemma_word_register_fields(v: u32)
    by (bit_vector)
    ensures
        (v >> 7u32) & 0x1f < 32,
        (v >> 15u32) & 0x1f < 32,
        (v >> 20u32) & 0x1f < 32,
{
}

proof fn lemma_compressed_register_fields(v: u16)
    by (bit_vector)
    ensures
        (v >> 7u16) & 0x1f < 32,
        (v >> 2u16) & 0x1f < 32,
        (v >> 7u16) & 0x7 < 8,
        (v >> 2u16) & 0x7 < 8,
{
}

/// Every register that a decoded 32-bit instruction names exists.
pub proof fn law_word_decoding_names_real_registers(v: u32)
    ensures
        decoded_word(v) matches Ok(inst) ==> names_real_registers(inst),
{
    lemma_word_register_fields(v);
}

/// Every register that a decoded compressed instruction names exists.
pub proof fn law_compressed_decoding_names_real_registers(v: u16)
    ensures
        decoded_compressed(v) matches Ok(inst) ==> names_real_registers(inst),
{
    lemma_compressed_register_fields(v);
}

/// A halfword whose two low bits are both set is not a compressed
/// instruction.
pub proof fn law_quadrant_three_is_not_compressed(v: u16)
    requires
        v & 0x3 == 3,
    ensures
        decoded_compressed(v) is Err,
{
}

/// A walk that finds its target stops on a slot whose position is the
/// target, at or beyond its start in its direction.
proof fn lemma_walk(program: Seq<(usize, Inst)>, j: int, dir: int, target: i64)
    requires
        program.len() <= usize::MAX,
    ensures
        walk(program, j, dir, target) matches Some(k) ==> {
            &&& 0 <= k < program.len()
            &&& program[k as int].0 as i64 == target
            &&& dir > 0 ==> k >= j
            &&& dir <= 0 ==> k <= j
        },
    decreases (if dir > 0 {
        program.len() - j
    } else {
        j + 1
    }),
{
    if j < 0 || j >= program.len() {
    } else if program[j].0 as i64 == target {
    } else if dir > 0 {
        lemma_walk(program, j + 1, dir, target);
    } else {
        lemma_walk(program, j - 1, dir, target);
    }
}

/// A jump lands on a slot of program memory whose position is the target,
/// and never on the slot it leaves.
pub proof fn law_jump_lands_on_target(s: MachineState, target: i64)
    requires
        s.valid(),
    ensures
        jump_target(s, target) matches Ok(j) ==> {
            &&& j < s.program.len()
            &&& s.position(j as int) == target
            &&& j != s.pc
        },
{
    let offset = target - s.position(s.pc as int);
    if offset > 0 {
        lemma_walk(s.program, s.pc + 1, 1, target);
    } else {
        lemma_walk(s.program, s.pc - 1, -1, target);
    }
}

/// What a store writes, a load from the same address reads back: after
/// `StoreWord(src, offset, base)`, a `LoadWord(rd, offset, base)` that sees
/// the same heap and the same value in `base` puts the stored value into
/// `rd`. The store changes no other heap word.
pub proof fn law_load_reads_back_store(
    s: MachineState,
    t: MachineState,
    src: u8,
    offset: i32,
    base: u8,
    rd: u8,
)
    requires
        s.pc < s.program.len(),
        s.program[s.pc as int].1 == Inst::StoreWord(src, offset, base),
        inst_result(s) is Ok,
        t.pc < t.program.len(),
        t.program[t.pc as int].1 == Inst::LoadWord(rd, offset, base),
        t.heap == inst_result(s)->Ok_0.0.heap,
        t.reg_ok(base),
        t.reg(base) == s.reg(base),
        t.reg_ok(rd),
    ensures
        inst_result(t) == Ok::<(MachineState, InstOutcome), Fault>(
            (t.with_reg(rd, s.reg(src)), InstOutcome { advance: true, request: None }),
        ),
        forall|k: int|
            0 <= k < s.heap.len() && k != s.reg(base) + offset ==> #[trigger] inst_result(
                s,
            )->Ok_0.0.heap[k] == s.heap[k],
{
    let index = s.reg(base) + offset;
    let s2 = inst_result(s)->Ok_0.0;
    assert(s.reg_ok(base) && s.reg_ok(src) && s.heap_ok(index));
    assert(s2.heap == s.heap.update(index, s.reg(src)));
    assert(t.heap_ok(index));
    assert(t.heap[index] == s.reg(src));
}

/// A step keeps program memory, the program's start and entry addresses,
/// the loaded segments and the sizes of the register file and heap, and
/// counts itself on the step counter.
pub proof fn law_step_keeps_layout(s: MachineState)
    requires
        s.valid(),
    ensures
        step_result(s) matches Ok((s2, _)) ==> {
            &&& s2.program == s.program
            &&& s2.program_start == s.program_start
            &&& s2.entry_address == s.entry_address
            &&& s2.virtmems == s.virtmems
            &&& s2.x.len() == s.x.len()
            &&& s2.heap.len() == s.heap.len()
            &&& s2.tick == s.tick + 1
        },
{
    if s.tick != u32::MAX {
        let s1 = MachineState { tick: (s.tick + 1) as u32, x: s.x.update(0, 0u32), ..s };
        lemma_inst_keeps_layout(s1);
    }
}

/// Carrying out an instruction keeps everything but the registers, the heap
/// contents and the program counter.
proof fn lemma_inst_keeps_layout(s: MachineState)
    ensures
        inst_result(s) matches Ok((s2, _)) ==> {
            &&& s2.program == s.program
            &&& s2.program_start == s.program_start
            &&& s2.entry_address == s.entry_address
            &&& s2.virtmems == s.virtmems
            &&& s2.x.len() == s.x.len()
            &&& s2.heap.len() == s.heap.len()
            &&& s2.tick == s.tick
        },
{
    if s.pc < s.program.len() {
        match s.program[s.pc as int].1 {
            Inst::JumpAndLinkReturn(rd, rs1, imm) => {},
            Inst::JumpAndLink(rd, imm) => {},
            _ => {},
        }
    }
}

/// Running keeps program memory, the program's start and entry addresses,
/// the loaded segments and the sizes of the register file and heap.
pub proof fn law_run_keeps_layout(s: MachineState, fuel: nat)
    requires
        s.valid(),
    ensures
        ({
            let s2 = run_result(s, fuel).0;
            &&& s2.program == s.program
            &&& s2.program_start == s.program_start
            &&& s2.entry_address == s.entry_address
            &&& s2.virtmems == s.virtmems
            &&& s2.x.len() == s.x.len()
            &&& s2.heap.len() == s.heap.len()
        }),
    decreases fuel,
{
    if s.pc < s.program.len() && s.program[s.pc as int].1 != Inst::Exit && fuel > 0 {
        law_step_keeps_layout(s);
        if let Ok((s2, o)) = step_result(s) {
            if o.request is None {
                law_run_keeps_layout(s2, (fuel - 1) as nat);
            }
        }
    }
}

/// The value held in `x0` before a step has no influence on the step.
pub proof fn law_x0_is_ignored(s: MachineState, v: u32)
    requires
        s.x.len() == REGISTER_COUNT,
    ensures
        step_result(s.with_reg(0, v)) == step_result(s),
{
    let s0 = s.with_reg(0, v);
    assert(s0.x.update(0, 0u32) =~= s.x.update(0, 0u32));
    let a = MachineState { tick: (s0.tick + 1) as u32, x: s0.x.update(0, 0u32), ..s0 };
    let b = MachineState { tick: (s.tick + 1) as u32, x: s.x.update(0, 0u32), ..s };
    assert(a == b);
}

/// A run with a budget of `a + b` steps is a run with `a` steps followed,
/// if that one ran out of steps, by a run with `b` steps.
pub proof fn law_run_splits(s: MachineState, a: nat, b: nat)
    ensures
        run_result(s, a + b) == (if run_result(s, a).1 is OutOfSteps {
            run_result(run_result(s, a).0, b)
        } else {
            run_result(s, a)
        }),
    decreases a,
{
    if s.pc < s.program.len() && s.program[s.pc as int].1 != Inst::Exit && a > 0 {
        if let Ok((s2, o)) = step_result(s) {
            if o.request is None {
                law_run_splits(s2, (a - 1) as nat, b);
                assert((a + b - 1) as nat == ((a - 1) as nat + b));
            }
        }
    }
}

/// Positions of a laid-out program grow strictly from instruction to
/// instruction, by at most four bytes each.
pub proof fn law_offsets_increase(raws: Seq<RawInst>, i: int, j: int)
    requires
        0 <= i < j <= raws.len(),
    ensures
        raw_offset(raws, i) < raw_offset(raws, j),
        raw_offset(raws, j) <= 4 * j,
    decreases j,
{
    if i < j - 1 {
        law_offsets_increase(raws, i, j - 1);
    } else {
        lemma_offset_bound(raws, i);
    }
}

proof fn lemma_offset_bound(raws: Seq<RawInst>, i: int)
    requires
        0 <= i <= raws.len(),
    ensures
        raw_offset(raws, i) <= 4 * i,
    decreases i,
{
    if i > 0 {
        lemma_offset_bound(raws, i - 1);
    }
}

proof fn lemma_entry_slot(raws: Seq<RawInst>, n: int, i: int, entry: int)
    requires
        0 <= i <= n <= raws.len(),
        raw_offset(raws, i) == entry,
    ensures
        entry_slot(raws, n, entry) == i,
    decreases n,
{
    if n > i {
        law_offsets_increase(raws, i, n);
        lemma_entry_slot(raws, n - 1, i, entry);
    } else if n == 0 {
    } else {
        assert(raw_offset(raws, n) == entry);
    }
}

/// After a program is put into memory, the program counter points at the
/// instruction that starts at the entry address, whenever one does, and that
/// slot holds the instruction's position and decoded form.
pub proof fn law_program_starts_at_entry(s: MachineState, raws: Seq<RawInst>, i: int)
    requires
        s.valid(),
        0 <= i < raws.len(),
        raws.len() <= s.program.len(),
        s.entry_address >= s.program_start,
        raw_offset(raws, i) == s.entry_address - s.program_start,
    ensures
        with_program(s, raws).pc == i,
        with_program(s, raws).program[i] == (
            (s.entry_address - s.program_start) as usize,
            decoded_raw(raws[i])->Ok_0,
        ),
{
    lemma_entry_slot(raws, raws.len() as int, i, s.entry_address - s.program_start);
}


/// A run that reports `Exited` stops on a slot holding `Exit`.
pub proof fn law_run_exits_on_exit(s: MachineState, fuel: nat)
    ensures
        run_result(s, fuel).1 is Exited ==> {
            let s2 = run_result(s, fuel).0;
            s2.pc < s2.program.len() && s2.program[s2.pc as int].1 == Inst::Exit
        },
    decreases fuel,
{
    if s.pc < s.program.len() && s.program[s.pc as int].1 != Inst::Exit && fuel > 0 {
        if let Ok((s2, o)) = step_result(s) {
            if o.request is None {
                law_run_exits_on_exit(s2, (fuel - 1) as nat);
            }
        }
    }
}

/// A run that reports a fault stops in the state from which the next step
/// faults that way (or whose program counter lies outside program memory).
pub proof fn law_run_stops_before_fault(s: MachineState, fuel: nat)
    ensures
        run_result(s, fuel).1 matches RunStop::Fault(f) ==> {
            let s2 = run_result(s, fuel).0;
            ||| s2.pc >= s2.program.len() && f == Fault::PcOutOfRange(s2.pc)
            ||| step_result(s2) == Err::<(MachineState, InstOutcome), Fault>(f)
        },
    decreases fuel,
{
    if s.pc < s.program.len() && s.program[s.pc as int].1 != Inst::Exit && fuel > 0 {
        if let Ok((s2, o)) = step_result(s) {
            if o.request is None {
                law_run_stops_before_fault(s2, (fuel - 1) as nat);
            }
        }
    }
}

/// Loading an ELF image leaves the registers, the heap and the step counter
/// alone and keeps the segments loaded before, adding the new ones after
/// them.
pub proof fn law_load_keeps_machine(s: MachineState, m: ElfModel, bytes: Seq<u8>)
    ensures
        load_result(s, m, bytes) matches Ok(s2) ==> {
            &&& s2.x == s.x
            &&& s2.heap == s.heap
            &&& s2.tick == s.tick
            &&& s2.virtmems.len() >= s.virtmems.len()
            &&& s2.virtmems.take(s.virtmems.len() as int) == s.virtmems
        },
{
    if let Ok(s2) = load_result(s, m, bytes) {
        assert(s2.virtmems.take(s.virtmems.len() as int) =~= s.virtmems);
    }
}


/// The halfwords that a raw instruction was read from: a compressed one is
/// its own halfword; a 32-bit one is its low half, then its high half.
pub open spec fn raw_halfwords(raw: RawInst) -> Seq<u16> {
    match raw {
        RawInst::Compressed(c) => seq![c],
        RawInst::Normal(n) => seq![(n % 0x10000) as u16, (n / 0x10000) as u16],
    }
}

/// The halfwords of a sequence of raw instructions, one after the other.
pub open spec fn halfwords_of_raws(raws: Seq<RawInst>) -> Seq<u16>
    decreases raws.len(),
{
    if raws.len() == 0 {
        Seq::empty()
    } else {
        raw_halfwords(raws[0]) + halfwords_of_raws(raws.drop_first())
    }
}

/// Whether a raw instruction is marked as the width it has: a compressed
/// one's two low bits are not both set, a 32-bit one's are.
pub open spec fn width_marked(raw: RawInst) -> bool {
    match raw {
        RawInst::Compressed(c) => c & 0x3 != 3,
        RawInst::Normal(n) => n & 0x3 == 3,
    }
}

proof fn lemma_word_low_bits(lo: u16, hi: u16)
    by (bit_vector)
    requires
        lo & 0x3 == 3,
    ensures
        (((lo as u32) + (hi as u32) * 0x10000u32) as u32) & 0x3u32 == 3u32,
{
}

/// Reading a halfword stream from `pos` on and putting the halfwords of the
/// raw instructions it yields back together gives the stream from `pos` on,
/// short of at most a last halfword that starts a 32-bit instruction with no
/// second half. Every yielded instruction is marked as the width it has.
pub proof fn law_stream_reassembles(v: Seq<u16>, pos: int)
    requires
        0 <= pos <= v.len(),
    ensures
        ({
            let f = halfwords_of_raws(raw_insts(v, pos));
            let k = pos + f.len();
            &&& k <= v.len()
            &&& f == v.subrange(pos, k)
            &&& k == v.len() || (k == v.len() - 1 && v[k] & 0x3 == 3)
        }),
        forall|i: int|
            0 <= i < raw_insts(v, pos).len() ==> width_marked(#[trigger] raw_insts(v, pos)[i]),
    decreases v.len() - pos,
{
    let raws = raw_insts(v, pos);
    if pos == v.len() {
        assert(v.subrange(pos, pos) =~= Seq::<u16>::empty());
    } else if v[pos] & 0x3 != 3 {
        law_stream_reassembles(v, pos + 1);
        let rest = raw_insts(v, pos + 1);
        assert(raws.drop_first() =~= rest);
        let f = halfwords_of_raws(raws);
        assert(f =~= v.subrange(pos, pos + f.len()));
        assert forall|i: int| 0 <= i < raws.len() implies width_marked(#[trigger] raws[i]) by {
            if i > 0 {
                assert(raws[i] == rest[i - 1]);
            }
        }
    } else if pos + 1 >= v.len() {
        assert(v.subrange(pos, pos) =~= Seq::<u16>::empty());
    } else {
        law_stream_reassembles(v, pos + 2);
        let rest = raw_insts(v, pos + 2);
        let lo = v[pos];
        let hi = v[pos + 1];
        let n = word_of_halves(lo, hi);
        assert(n == ((lo as u32) + (hi as u32) * 0x10000u32) as u32);
        assert(n % 0x10000 == lo);
        assert(n / 0x10000 == hi);
        lemma_word_low_bits(lo, hi);
        assert(raws.drop_first() =~= rest);
        let f = halfwords_of_raws(raws);
        assert(f =~= v.subrange(pos, pos + f.len()));
        assert forall|i: int| 0 <= i < raws.len() implies width_marked(#[trigger] raws[i]) by {
            if i > 0 {
                assert(raws[i] == rest[i - 1]);
            }
        }
    }
}

/// In the debugger only `n` changes the machine, and it takes exactly one
/// step: the state and outcome of `step_result`, or no change on a fault.
pub proof fn law_debugger_only_steps_on_next(s: MachineState, command: DebugCommand)
    ensures
        command != DebugCommand::Next ==> debug_result(s, command).0 == s,
        command == DebugCommand::Next ==> match step_result(s) {
            Ok((s2, o)) => debug_result(s, command) == (s2, DebugAction::Stepped(Ok(o))),
            Err(f) => debug_result(s, command) == (s, DebugAction::Stepped(Err(f))),
        },
{
}

/// Whether the immediate of an instruction lies in the range that its
/// 32-bit encoding can express: twelve signed bits for register-immediate
/// operations, loads, stores and register jumps; an even thirteen-bit
/// offset for branches; an even 21-bit offset for jumps; a multiple of 4096
/// for upper immediates.
pub open spec fn word_immediate_in_range(inst: Inst) -> bool {
    match inst {
        Inst::AddImmediate(_, _, i) | Inst::XorImm(_, _, i) | Inst::LoadWord(_, i, _)
        | Inst::StoreWord(_, i, _) | Inst::JumpAndLinkReturn(_, _, i) => -2048 <= i <= 2047,
        Inst::BranchLessThan(_, _, i) | Inst::BranchNotEquals(_, _, i) => i % 2 == 0 && -4096 <= i
            <= 4094,
        Inst::JumpAndLink(_, i) => i % 2 == 0 && -1048576 <= i <= 1048574,
        Inst::AddUpperImmediateToPc(_, i) | Inst::LoadUpperImmediate(_, i) => i % 4096 == 0,
        _ => true,
    }
}

proof fn lemma_word_immediate_fields(v: u32)
    by (bit_vector)
    ensures
        v >> 20u32 < 4096,
        v >> 25u32 < 128,
        (v >> 7u32) & 0x1f <= 31,
        (v >> 8u32) & 0xf <= 15,
        (v >> 25u32) & 0x3f <= 63,
        (v >> 7u32) & 0x1 <= 1,
        (v >> 31u32) & 0x1 <= 1,
        (v >> 21u32) & 0x3ff <= 1023,
        (v >> 20u32) & 0x1 <= 1,
        (v >> 12u32) & 0xff <= 255,
        ((v & 0xfffff000u32) as i32) % 4096i32 == 0i32,
{
}

/// Every immediate that a decoded 32-bit instruction carries lies in the
/// range its encoding can express.
pub proof fn law_word_decoding_immediates_in_range(v: u32)
    ensures
        decoded_word(v) matches Ok(inst) ==> word_immediate_in_range(inst),
{
    lemma_word_immediate_fields(v);
}

/// The state after a sequence of debugger commands.
pub open spec fn after_commands(s: MachineState, commands: Seq<DebugCommand>) -> MachineState
    decreases commands.len(),
{
    if commands.len() == 0 {
        s
    } else {
        after_commands(debug_result(s, commands[0]).0, commands.drop_first())
    }
}

/// The state after `k` steps, a faulting step changing nothing.
pub open spec fn after_steps(s: MachineState, k: nat) -> MachineState
    decreases k,
{
    if k == 0 {
        s
    } else {
        match step_result(s) {
            Ok((s2, _)) => after_steps(s2, (k - 1) as nat),
            Err(_) => after_steps(s, (k - 1) as nat),
        }
    }
}

/// `k` commands `n`.
pub open spec fn next_commands(k: nat) -> Seq<DebugCommand> {
    Seq::new(k, |i: int| DebugCommand::Next)
}

/// A debugger session of `k` commands `n` followed by `run` leaves the
/// machine as `k` steps do, answers `run` by running on, and what running
/// on then does is what a run after those `k` steps does.
pub proof fn law_debug_session_is_steps_then_run(s: MachineState, k: nat, fuel: nat)
    ensures
        after_commands(s, next_commands(k).push(DebugCommand::Run)) == after_steps(s, k),
        debug_result(after_commands(s, next_commands(k)), DebugCommand::Run).1 is RunOn,
        run_result(after_commands(s, next_commands(k).push(DebugCommand::Run)), fuel)
            == run_result(after_steps(s, k), fuel),
{
    lemma_next_commands(s, k);
}

proof fn lemma_next_commands(s: MachineState, k: nat)
    ensures
        after_commands(s, next_commands(k)) == after_steps(s, k),
        after_commands(s, next_commands(k).push(DebugCommand::Run)) == after_steps(s, k),
    decreases k,
{
    let s1 = debug_result(s, DebugCommand::Next).0;
    if k == 0 {
        let c = next_commands(0).push(DebugCommand::Run);
        assert(c.drop_first() =~= Seq::<DebugCommand>::empty());
        assert(c[0] == DebugCommand::Run);
        assert(after_commands(s, Seq::<DebugCommand>::empty()) == s);
        assert(after_commands(s, c) == after_commands(s, c.drop_first()));
    } else {
        lemma_next_commands(s1, (k - 1) as nat);
        assert(next_commands(k).drop_first() =~= next_commands((k - 1) as nat));
        assert(next_commands(k).push(DebugCommand::Run).drop_first() =~= next_commands(
            (k - 1) as nat,
        ).push(DebugCommand::Run));
        assert(next_commands(k)[0] == DebugCommand::Next);
        assert(next_commands(k).push(DebugCommand::Run)[0] == DebugCommand::Next);
    }
}


proof fn lemma_xor_twelve_bit_immediate(a: u32, imm: i32, r: u32)
    by (bit_vector)
    requires
        r == a ^ (imm as u32),
        -2048 <= imm <= 2047,
    ensures
        r & 0x7ff == (a & 0x7ff) ^ (((imm + 2048) % 2048) as u32),
        imm >= 0 ==> r >> 11u32 == a >> 11u32,
        imm < 0 ==> r >> 11u32 == (a >> 11u32) ^ 0x1fffff,
        imm == -1 ==> r == !a,
{
}

/// `xori` with a twelve-bit immediate sign-extends it: the low eleven bits
/// of `rd` are those of `rs` xored with the immediate's low eleven bits, and
/// the upper 21 bits are those of `rs`, all flipped when the immediate is
/// negative. So `xori rd, rs, -1` is `not`. Nothing else changes and the
/// next slot runs next.
pub proof fn law_xor_immediate_sign_extends(s: MachineState, rd: u8, rs: u8, imm: i32)
    requires
        s.valid(),
        s.pc < s.program.len(),
        s.program[s.pc as int].1 == Inst::XorImm(rd, rs, imm),
        (rd as int) < REGISTER_COUNT,
        (rs as int) < REGISTER_COUNT,
        -2048 <= imm <= 2047,
    ensures
        inst_result(s) matches Ok((t, out)) && {
            let a = s.reg(rs);
            let r = t.reg(rd);
            &&& t == s.with_reg(rd, r)
            &&& out.advance && out.request is None
            &&& r & 0x7ff == (a & 0x7ff) ^ (((imm + 2048) % 2048) as u32)
            &&& imm >= 0 ==> r >> 11u32 == a >> 11u32
            &&& imm < 0 ==> r >> 11u32 == (a >> 11u32) ^ 0x1fffff
            &&& imm == -1 ==> r == !a
        },
{
    let a = s.reg(rs);
    let r = a ^ (imm as u32);
    lemma_xor_twelve_bit_immediate(a, imm, r);
    let t = s.with_reg(rd, r);
    assert(t.reg(rd) == r);
    assert(t.with_reg(rd, r).x =~= t.x);
}


/// Whether the positions of the program's slots grow strictly from slot to
/// slot and all lie in the 32-bit address space.
pub open spec fn positions_increase(program: Seq<(usize, Inst)>) -> bool {
    &&& forall|i: int, j: int|
        0 <= i < j < program.len() ==> #[trigger] program[i].0 < #[trigger] program[j].0
    &&& forall|i: int| 0 <= i < program.len() ==> #[trigger] program[i].0 <= u32::MAX
}

/// Where positions increase, a walk towards the slot that holds the target
/// stops on that slot.
proof fn lemma_walk_finds(program: Seq<(usize, Inst)>, j: int, dir: int, k: int)
    requires
        positions_increase(program),
        0 <= k < program.len(),
        dir > 0 ==> 0 <= j <= k,
        dir <= 0 ==> k <= j < program.len(),
    ensures
        walk(program, j, dir, program[k].0 as i64) == Some(k as usize),
    decreases (if dir > 0 {
        k - j
    } else {
        j - k
    }),
{
    let target = program[k].0 as i64;
    if j != k {
        assert(program[j].0 != program[k].0);
        assert(program[j].0 as i64 != target);
        if dir > 0 {
            lemma_walk_finds(program, j + 1, dir, k);
        } else {
            lemma_walk_finds(program, j - 1, dir, k);
        }
    }
}

/// `jal` and `jalr` link to the position of the slot that follows them,
/// whatever the width of the jump instruction itself: after a jump that goes
/// through, `rd` holds the position of slot `pc + 1`, no other register
/// changes, and the jump lands on a slot whose position is its target.
pub proof fn law_link_is_next_position(s: MachineState)
    requires
        s.valid(),
        s.pc < s.program.len(),
        s.program[s.pc as int].1 is JumpAndLink || s.program[s.pc as int].1 is JumpAndLinkReturn,
    ensures
        inst_result(s) matches Ok((t, out)) ==> {
            let rd = match s.program[s.pc as int].1 {
                Inst::JumpAndLink(rd, _) => rd,
                Inst::JumpAndLinkReturn(rd, _, _) => rd,
                _ => 0,
            };
            &&& s.pc + 1 < s.program.len()
            &&& t.x == s.x.update(rd as int, s.program[s.pc + 1].0 as u32)
            &&& t.pc < s.program.len()
            &&& !out.advance
        },
{
    match s.program[s.pc as int].1 {
        Inst::JumpAndLink(rd, imm) => {
            if s.pc + 1 < s.program.len() && s.reg_ok(rd) {
                let s1 = s.with_reg(rd, s.program[s.pc + 1].0 as u32);
                if let Some(t) = relative_target(s1, imm) {
                    law_jump_lands_on_target(s1, t);
                }
            }
        },
        Inst::JumpAndLinkReturn(rd, rs1, imm) => {
            if s.pc + 1 < s.program.len() && s.reg_ok(rd) {
                let s1 = s.with_reg(rd, s.program[s.pc + 1].0 as u32);
                if s1.reg_ok(rs1) {
                    law_jump_lands_on_target(s1, (s1.reg(rs1) as int + imm as int) as i64);
                }
            }
        },
        _ => {},
    }
}

/// A call returns to the instruction after it: once `jal rd, ..` has run
/// from slot `c`, a later `jalr x0, rd, 0` (with the link still in `rd` and
/// the same program memory) jumps to slot `c + 1`, so execution resumes
/// with the instruction that follows the call, be it two or four bytes
/// long.
pub proof fn law_return_resumes_after_call(s: MachineState, rd: u8, imm: i32, u: MachineState)
    requires
        s.valid(),
        positions_increase(s.program),
        s.pc < s.program.len(),
        s.program[s.pc as int].1 == Inst::JumpAndLink(rd, imm),
        0 < rd < REGISTER_COUNT,
        inst_result(s) is Ok,
        u.valid(),
        u.program == s.program,
        u.pc + 1 < u.program.len(),
        u.pc != s.pc + 1,
        u.program[u.pc as int].1 == Inst::JumpAndLinkReturn(0, rd, 0),
        u.reg(rd) == inst_result(s)->Ok_0.0.reg(rd),
    ensures
        inst_result(u) matches Ok((v, out)) && v.pc == s.pc + 1 && !out.advance,
{
    law_link_is_next_position(s);
    let k = s.pc + 1;
    let link = s.program[k].0 as u32;
    assert(s.program[k].0 <= u32::MAX);
    assert(u.reg(rd) == link);
    let u1 = u.with_reg(0, u.program[u.pc + 1].0 as u32);
    assert(u1.reg(rd) == link);
    let target = (u1.reg(rd) as int + 0) as i64;
    assert(target == s.program[k].0 as i64);
    assert(u.program[u.pc as int].0 <= u32::MAX);
    if u.pc < k {
        assert(u.program[u.pc as int].0 < u.program[k].0);
        lemma_walk_finds(u.program, u.pc + 1, 1, k);
    } else {
        assert(u.program[k].0 < u.program[u.pc as int].0);
        lemma_walk_finds(u.program, u.pc - 1, -1, k);
    }
}

} // verus!
