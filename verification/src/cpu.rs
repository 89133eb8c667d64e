use vstd::prelude::*;

use crate::inst::{decoded_raw, Inst};
use crate::program::{Program, RawInst};
use crate::syscall::{host_syscall, translate_syscall};
use crate::virtual_memory::VirtualMemory;

verus! {

/// Words of heap memory (64 K).
pub const HEAP_SIZE: usize = 64000;

/// Slots of program memory.
pub const PROGRAM_SIZE: usize = 1024;

/// General-purpose registers.
pub const REGISTER_COUNT: usize = 32;

/// The stack pointer register, `x2`.
pub const STACK_POINTER: usize = 2;

/// The first system-call argument register, `a0` (`x10`).
pub const ARGUMENT0: usize = 10;

/// The system-call number register, `a7` (`x17`).
pub const ARGUMENT7: usize = 17;

/// Why the machine cannot carry out an instruction.
#[derive(Debug, Clone, Copy, PartialEq, Eq, Structural)]
pub enum Fault {
    /// The program counter (or the slot after it) lies outside program memory.
    PcOutOfRange(usize),
    /// An instruction names a register that does not exist.
    RegisterOutOfRange(u8),
    /// A load or store addresses a word outside the heap.
    HeapOutOfRange(i64),
    /// An address, jump offset or counter computation overflows, or a jump
    /// has offset zero.
    Overflow,
    /// A jump walked off program memory without meeting its target position.
    JumpTargetNotFound(i64),
    /// A system call that the riscv32 or the host table does not know.
    UnknownSyscall(u32),
    /// An instruction that the machine does not execute.
    Unimplemented(Inst),
}

/// Outside work that an instruction asks for.
#[derive(Debug, Clone, Copy)]
pub enum Request {
    /// Print a register's value.
    Print(u32),
    /// Print the machine state, as it was at the given program counter.
    Dump { pc: usize },
    /// Perform a host system call with six arguments (`a0` .. `a5`).
    Syscall { number: usize, args: (u32, u32, u32, u32, u32, u32) },
}

/// What executing one instruction did besides changing the state.
#[derive(Debug, Clone, Copy)]
pub struct InstOutcome {
    /// Whether the program counter moves on to the next slot afterwards.
    pub advance: bool,
    /// Outside work the instruction asks for.
    pub request: Option<Request>,
}

/// Why `run` stopped.
#[derive(Debug, Clone, Copy)]
pub enum RunStop {
    /// The program counter reached an `Exit` instruction.
    Exited,
    /// An instruction could not be carried out; the state is that before it.
    Fault(Fault),
    /// An instruction asks for outside work; it has been carried out otherwise.
    Request(Request),
    /// The step budget ran out.
    OutOfSteps,
}

/// The mathematical state of the machine.
pub struct MachineState {
    /// Program memory: each slot holds the instruction's byte position in the
    /// program and the instruction.
    pub program: Seq<(usize, Inst)>,
    pub tick: u32,
    pub pc: usize,
    pub program_start: usize,
    pub entry_address: usize,
    pub x: Seq<u32>,
    pub heap: Seq<u32>,
    pub virtmems: Seq<VirtualMemory>,
}

impl MachineState {
    /// The shape every machine has: `PROGRAM_SIZE` slots and
    /// `REGISTER_COUNT` registers.
    pub open spec fn valid(self) -> bool {
        self.program.len() == PROGRAM_SIZE && self.x.len() == REGISTER_COUNT
    }

    pub open spec fn reg_ok(self, r: u8) -> bool {
        (r as int) < self.x.len()
    }

    pub open spec fn reg(self, r: u8) -> u32 {
        self.x[r as int]
    }

    pub open spec fn with_reg(self, r: u8, v: u32) -> MachineState {
        MachineState { x: self.x.update(r as int, v), ..self }
    }

    pub open spec fn with_pc(self, pc: usize) -> MachineState {
        MachineState { pc: pc, ..self }
    }

    /// The position of the instruction in slot `j`, as a signed number.
    pub open spec fn position(self, j: int) -> i64 {
        self.program[j].0 as i64
    }

    /// Whether `index` addresses a word of the heap.
    pub open spec fn heap_ok(self, index: int) -> bool {
        0 <= index < self.heap.len()
    }
}

/// Walking from slot `j` in direction `dir` (one slot at a time), the first
/// slot whose position is `target`; `None` if the walk leaves program memory
/// first.
pub open spec fn walk(program: Seq<(usize, Inst)>, j: int, dir: int, target: i64) -> Option<usize>
    decreases (if dir > 0 {
        program.len() - j
    } else {
        j + 1
    }),
{
    if j < 0 || j >= program.len() {
        None
    } else if program[j].0 as i64 == target {
        Some(j as usize)
    } else if dir > 0 {
        walk(program, j + 1, dir, target)
    } else {
        walk(program, j - 1, dir, target)
    }
}

/// The slot that a jump from the current slot to byte position `target`
/// lands on: the nearest slot in the direction of the target whose position
/// is the target.
pub open spec fn jump_target(s: MachineState, target: i64) -> Result<usize, Fault> {
    let offset = target - s.position(s.pc as int);
    // The signed offset must be computable, and its direction defined.
    if offset < i64::MIN || offset > i64::MAX || offset == 0 || offset == i64::MIN {
        Err(Fault::Overflow)
    } else {
        let dir: int = if offset > 0 {
            1
        } else {
            -1
        };
        match walk(s.program, s.pc + dir, dir, target) {
            Some(j) => Ok(j),
            None => Err(Fault::JumpTargetNotFound(target)),
        }
    }
}

/// The byte position reached from the current instruction by `imm`.
pub open spec fn relative_target(s: MachineState, imm: i32) -> Option<i64> {
    let t = s.position(s.pc as int) + imm;
    if i64::MIN <= t <= i64::MAX {
        Some(t as i64)
    } else {
        None
    }
}

/// The instruction is done; the next slot runs next.
pub open spec fn proceed(s: MachineState) -> Result<(MachineState, InstOutcome), Fault> {
    Ok((s, InstOutcome { advance: true, request: None }))
}

/// A conditional branch: when `taken`, jump to `pos + imm`; `advance` says
/// whether the slot after the landing slot is the one that runs next.
pub open spec fn branch(s: MachineState, taken: bool, imm: i32, advance: bool) -> Result<
    (MachineState, InstOutcome),
    Fault,
> {
    if !taken {
        proceed(s)
    } else {
        match relative_target(s, imm) {
            None => Err(Fault::Overflow),
            Some(t) => match jump_target(s, t) {
                Err(f) => Err(f),
                Ok(j) => Ok((s.with_pc(j), InstOutcome { advance: advance, request: None })),
            },
        }
    }
}

/// A register write: `rd := v`.
pub open spec fn write(s: MachineState, rd: u8, v: u32) -> Result<(MachineState, InstOutcome), Fault> {
    if !s.reg_ok(rd) {
        Err(Fault::RegisterOutOfRange(rd))
    } else {
        proceed(s.with_reg(rd, v))
    }
}

/// `rd := f(rs)` for a one-operand operation.
pub open spec fn unary(s: MachineState, rd: u8, rs: u8, v: spec_fn(u32) -> u32) -> Result<
    (MachineState, InstOutcome),
    Fault,
> {
    if !s.reg_ok(rs) {
        Err(Fault::RegisterOutOfRange(rs))
    } else {
        write(s, rd, v(s.reg(rs)))
    }
}

/// `rd := f(rs1, rs2)` for a two-operand operation.
pub open spec fn binary(s: MachineState, rd: u8, rs1: u8, rs2: u8, v: spec_fn(u32, u32) -> u32) -> Result<
    (MachineState, InstOutcome),
    Fault,
> {
    if !s.reg_ok(rs1) {
        Err(Fault::RegisterOutOfRange(rs1))
    } else if !s.reg_ok(rs2) {
        Err(Fault::RegisterOutOfRange(rs2))
    } else {
        write(s, rd, v(s.reg(rs1), s.reg(rs2)))
    }
}

/// Jump and link: `rd` gets the position of the next slot, then the machine
/// jumps to the position that `target` computes from the updated state.
pub open spec fn jump_and_link(s: MachineState, rd: u8, target: spec_fn(MachineState) -> Result<i64, Fault>) -> Result<
    (MachineState, InstOutcome),
    Fault,
> {
    if s.pc + 1 >= s.program.len() {
        Err(Fault::PcOutOfRange((s.pc + 1) as usize))
    } else if !s.reg_ok(rd) {
        Err(Fault::RegisterOutOfRange(rd))
    } else {
        let s1 = s.with_reg(rd, s.program[s.pc + 1].0 as u32);
        match target(s1) {
            Err(f) => Err(f),
            Ok(t) => match jump_target(s1, t) {
                Err(f) => Err(f),
                Ok(j) => Ok((s1.with_pc(j), InstOutcome { advance: false, request: None })),
            },
        }
    }
}

/// What carrying out the instruction in the current slot does: the new
/// state (program counter not yet advanced) and the outcome, or the fault
/// that stops it.
pub open spec fn inst_result(s: MachineState) -> Result<(MachineState, InstOutcome), Fault> {
    if s.pc >= s.program.len() {
        Err(Fault::PcOutOfRange(s.pc))
    } else {
        let pos = s.program[s.pc as int].0;
        match s.program[s.pc as int].1 {
            Inst::AddUpperImmediateToPc(rd, imm) => {
                if s.program_start + pos > usize::MAX {
                    Err(Fault::Overflow)
                } else {
                    write(
                        s,
                        rd,
                        ((s.program_start + pos) as usize as u32).wrapping_add(imm as u32),
                    )
                }
            },
            Inst::AddImmediate(rd, rs, imm) => unary(
                s,
                rd,
                rs,
                |a: u32| (a as int + imm as int) as u32,
            ),
            Inst::Add(rd, rs1, rs2) => {
                if !s.reg_ok(rs1) {
                    Err(Fault::RegisterOutOfRange(rs1))
                } else if !s.reg_ok(rs2) {
                    Err(Fault::RegisterOutOfRange(rs2))
                } else if s.reg(rs1) + s.reg(rs2) > u32::MAX {
                    Err(Fault::Overflow)
                } else {
                    write(s, rd, (s.reg(rs1) + s.reg(rs2)) as u32)
                }
            },
            Inst::Move(rd, rs) => unary(s, rd, rs, |a: u32| a),
            Inst::BranchLessThan(rs1, rs2, imm) => {
                if !s.reg_ok(rs1) {
                    Err(Fault::RegisterOutOfRange(rs1))
                } else if !s.reg_ok(rs2) {
                    Err(Fault::RegisterOutOfRange(rs2))
                } else {
                    // A taken less-than branch, like a taken less-or-equal
                    // branch, continues with the slot after its target.
                    branch(s, s.reg(rs1) < s.reg(rs2), imm, true)
                }
            },
            Inst::BranchNotEquals(rs1, rs2, imm) => {
                if !s.reg_ok(rs1) {
                    Err(Fault::RegisterOutOfRange(rs1))
                } else if !s.reg_ok(rs2) {
                    Err(Fault::RegisterOutOfRange(rs2))
                } else {
                    branch(s, s.reg(rs1) != s.reg(rs2), imm, false)
                }
            },
            Inst::BranchLessEq(rs1, rs2, imm) => {
                if !s.reg_ok(rs1) {
                    Err(Fault::RegisterOutOfRange(rs1))
                } else if !s.reg_ok(rs2) {
                    Err(Fault::RegisterOutOfRange(rs2))
                } else {
                    branch(s, s.reg(rs1) <= s.reg(rs2), imm, true)
                }
            },
            Inst::Print(r) => {
                if !s.reg_ok(r) {
                    Err(Fault::RegisterOutOfRange(r))
                } else {
                    Ok((s, InstOutcome { advance: true, request: Some(Request::Print(s.reg(r))) }))
                }
            },
            Inst::StoreWord(src, offset, base) => {
                if !s.reg_ok(base) {
                    Err(Fault::RegisterOutOfRange(base))
                } else if !s.reg_ok(src) {
                    Err(Fault::RegisterOutOfRange(src))
                } else {
                    let index = s.reg(base) + offset;
                    if !s.heap_ok(index) {
                        Err(Fault::HeapOutOfRange(index as i64))
                    } else {
                        proceed(MachineState { heap: s.heap.update(index, s.reg(src)), ..s })
                    }
                }
            },
            Inst::LoadWord(rd, offset, base) => {
                if !s.reg_ok(base) {
                    Err(Fault::RegisterOutOfRange(base))
                } else {
                    let index = s.reg(base) + offset;
                    if !s.heap_ok(index) {
                        Err(Fault::HeapOutOfRange(index as i64))
                    } else {
                        write(s, rd, s.heap[index])
                    }
                }
            },
            Inst::LoadUpperImmediate(rd, imm) => write(s, rd, (imm as u32) << 12u32),
            Inst::Xor(rd, rs1, rs2) => binary(s, rd, rs1, rs2, |a: u32, b: u32| a ^ b),
            Inst::XorImm(rd, rs, imm) => unary(s, rd, rs, |a: u32| a ^ (imm as u32)),
            Inst::Not(rd, rs) => unary(s, rd, rs, |a: u32| !a),
            Inst::And(rd, rs1, rs2) => binary(s, rd, rs1, rs2, |a: u32, b: u32| a & b),
            Inst::Or(rd, rs1, rs2) => binary(s, rd, rs1, rs2, |a: u32, b: u32| a | b),
            Inst::Ecall => ecall_result(s, host_syscall(s.reg(ARGUMENT7 as u8))),
            Inst::JumpAndLinkReturn(rd, rs1, imm) => jump_and_link(
                s,
                rd,
                |s1: MachineState|
                    if !s1.reg_ok(rs1) {
                        Err(Fault::RegisterOutOfRange(rs1))
                    } else {
                        Ok((s1.reg(rs1) as int + imm as int) as i64)
                    },
            ),
            Inst::JumpAndLink(rd, imm) => jump_and_link(
                s,
                rd,
                |s1: MachineState|
                    match relative_target(s1, imm) {
                        Some(t) => Ok(t),
                        None => Err(Fault::Overflow),
                    },
            ),
            Inst::Dump => Ok(
                (s, InstOutcome { advance: true, request: Some(Request::Dump { pc: s.pc }) }),
            ),
            Inst::LoadImmediate(rd, imm) => write(s, rd, imm as u32),
            other => Err(Fault::Unimplemented(other)),
        }
    }
}

/// What a system call asks for, given the host call number that
/// `translate_syscall` finds for the number in `a7`.
pub open spec fn ecall_result(s: MachineState, host: Option<usize>) -> Result<(MachineState, InstOutcome), Fault> {
    match host {
        None => Err(Fault::UnknownSyscall(s.reg(ARGUMENT7 as u8))),
        Some(number) => Ok(
            (
                s,
                InstOutcome {
                    advance: true,
                    request: Some(Request::Syscall { number: number, args: syscall_args(s) }),
                },
            ),
        ),
    }
}

/// The arguments `a0` .. `a5` of a system call.
pub open spec fn syscall_args(s: MachineState) -> (u32, u32, u32, u32, u32, u32) {
    (s.x[10], s.x[11], s.x[12], s.x[13], s.x[14], s.x[15])
}

/// The emulated machine.
#[derive(Debug)]
pub struct Cpu {
    pub program_memory: [(usize, Inst); PROGRAM_SIZE],
    /// Counts the steps taken.
    pub tick: u32,
    /// Program counter: a slot of program memory.
    pub pc: usize,
    /// Address of the program's first instruction.
    pub program_start: usize,
    /// Address at which execution of a loaded program begins.
    pub entry_address: usize,
    /// General-purpose registers.
    pub x: [u32; REGISTER_COUNT],
    pub heap: Vec<u32>,
    /// The loadable segments of the ELF images loaded so far.
    pub virtmems: Vec<VirtualMemory>,
}

impl View for Cpu {
    type V = MachineState;

    open spec fn view(&self) -> MachineState {
        MachineState {
            program: self.program_memory@,
            tick: self.tick,
            pc: self.pc,
            program_start: self.program_start,
            entry_address: self.entry_address,
            x: self.x@,
            heap: self.heap@,
            virtmems: self.virtmems@,
        }
    }
}


/// The state of a freshly made machine: every slot holds `Exit` at
/// position 0, all registers are zero except the stack pointer, which points
/// at the end of the zeroed heap.
pub open spec fn initial_state() -> MachineState {
    MachineState {
        program: Seq::new(PROGRAM_SIZE as nat, |i: int| (0usize, Inst::Exit)),
        tick: 0,
        pc: 0,
        program_start: 0,
        entry_address: 0,
        x: Seq::new(
            REGISTER_COUNT as nat,
            |i: int|
                if i == STACK_POINTER {
                    HEAP_SIZE as u32
                } else {
                    0u32
                },
        ),
        heap: Seq::new(HEAP_SIZE as nat, |i: int| 0u32),
        virtmems: Seq::empty(),
    }
}

impl Default for Cpu {
    fn default() -> (c: Cpu)
        ensures
            c@ == initial_state(),
    {
        let mut heap: Vec<u32> = Vec::new();
        let mut i: usize = 0;
        while i < HEAP_SIZE
            invariant
                i <= HEAP_SIZE,
                heap@ == Seq::new(i as nat, |k: int| 0u32),
            decreases HEAP_SIZE - i,
        {
            heap.push(0);
            i = i + 1;
            proof {
                assert(heap@ =~= Seq::new(i as nat, |k: int| 0u32));
            }
        }
        let mut c = Cpu {
            program_memory: [(0, Inst::Exit); PROGRAM_SIZE],
            tick: 0,
            pc: 0,
            program_start: 0,
            entry_address: 0,
            x: [0; REGISTER_COUNT],
            heap: heap,
            virtmems: Vec::new(),
        };
        c.x[STACK_POINTER] = HEAP_SIZE as u32;
        proof {
            assert(c@.program =~= initial_state().program);
            assert(c@.x =~= initial_state().x);
        }
        c
    }
}

impl Cpu {
    /// The value of register `r`.
    fn read_reg(&self, r: u8) -> (res: Result<u32, Fault>)
        ensures
            match res {
                Ok(v) => self@.reg_ok(r) && v == self@.reg(r),
                Err(f) => !self@.reg_ok(r) && f == Fault::RegisterOutOfRange(r),
            },
    {
        if (r as usize) < REGISTER_COUNT {
            Ok(self.x[r as usize])
        } else {
            Err(Fault::RegisterOutOfRange(r))
        }
    }

    /// Carries out `rd := v`.
    fn write_reg(&mut self, rd: u8, v: u32) -> (res: Result<InstOutcome, Fault>)
        ensures
            match write(old(self)@, rd, v) {
                Ok((s, o)) => res == Ok::<InstOutcome, Fault>(o) && final(self)@ == s,
                Err(f) => res == Err::<InstOutcome, Fault>(f) && final(self)@ == old(self)@,
            },
    {
        if (rd as usize) < REGISTER_COUNT {
            self.x[rd as usize] = v;
            proof {
                assert(self@.x =~= old(self)@.x.update(rd as int, v));
            }
            Ok(InstOutcome { advance: true, request: None })
        } else {
            Err(Fault::RegisterOutOfRange(rd))
        }
    }

    /// What a system call asks for, given the host call number found for
    /// the riscv32 number in `a7` (`None` where there is none).
    pub fn ecall_outcome(&self, host: Option<usize>) -> (res: Result<InstOutcome, Fault>)
        ensures
            match ecall_result(self@, host) {
                Ok((s, o)) => res == Ok::<InstOutcome, Fault>(o),
                Err(f) => res == Err::<InstOutcome, Fault>(f),
            },
    {
        match host {
            None => Err(Fault::UnknownSyscall(self.x[ARGUMENT7])),
            Some(number) => {
                let args = (
                    self.x[ARGUMENT0],
                    self.x[ARGUMENT0 + 1],
                    self.x[ARGUMENT0 + 2],
                    self.x[ARGUMENT0 + 3],
                    self.x[ARGUMENT0 + 4],
                    self.x[ARGUMENT0 + 5],
                );
                Ok(
                    InstOutcome {
                        advance: true,
                        request: Some(Request::Syscall { number: number, args: args }),
                    },
                )
            },
        }
    }

    /// The position `imm` bytes away from the current instruction's.
    fn relative(&self, imm: i32) -> (res: Option<i64>)
        requires
            self.pc < PROGRAM_SIZE,
        ensures
            res == relative_target(self@, imm),
    {
        (self.program_memory[self.pc].0 as i64).checked_add(imm as i64)
    }

    /// Carries out a conditional branch (see `branch`).
    fn take_branch(&mut self, taken: bool, imm: i32, advance: bool) -> (res: Result<InstOutcome, Fault>)
        requires
            old(self).pc < PROGRAM_SIZE,
        ensures
            match branch(old(self)@, taken, imm, advance) {
                Ok((s, o)) => res == Ok::<InstOutcome, Fault>(o) && final(self)@ == s,
                Err(f) => res == Err::<InstOutcome, Fault>(f) && final(self)@ == old(self)@,
            },
            final(self).pc < PROGRAM_SIZE,
    {
        if !taken {
            return Ok(InstOutcome { advance: true, request: None });
        }
        let target = match self.relative(imm) {
            Some(t) => t,
            None => {
                return Err(Fault::Overflow);
            },
        };
        match self.find_target(target) {
            Ok(_) => {
                self.jump_to(target);
                Ok(InstOutcome { advance: advance, request: None })
            },
            Err(f) => Err(f),
        }
    }

    /// Jumps from the current slot to the slot holding byte position
    /// `target` (see `jump_target`). Defined where such a jump exists: the
    /// target differs from the current position and a slot in its direction
    /// holds it.
    fn jump_to(&mut self, target: i64)
        requires
            old(self).pc < PROGRAM_SIZE,
            jump_target(old(self)@, target) is Ok,
        ensures
            final(self)@ == old(self)@.with_pc(jump_target(old(self)@, target)->Ok_0),
            final(self).pc < PROGRAM_SIZE,
    {
        match self.find_target(target) {
            Ok(j) => self.pc = j,
            Err(_) => vstd::pervasive::unreached(),
        }
    }

    /// The slot that a jump from the current slot to position `target`
    /// lands on.
    fn find_target(&self, target: i64) -> (res: Result<usize, Fault>)
        requires
            self.pc < PROGRAM_SIZE,
        ensures
            res == jump_target(self@, target),
            res matches Ok(j) ==> j < PROGRAM_SIZE,
    {
        let pos = self.program_memory[self.pc].0 as i64;
        let offset = match target.checked_sub(pos) {
            Some(o) => o,
            None => {
                return Err(Fault::Overflow);
            },
        };
        if offset == 0 || offset == i64::MIN {
            return Err(Fault::Overflow);
        }
        let ghost s = self@;
        let mut j = self.pc;
        if offset > 0 {
            loop
                invariant
                    s == self@,
                    j < PROGRAM_SIZE,
                    s.pc < PROGRAM_SIZE,
                    offset == target - s.position(s.pc as int),
                    offset > 0,
                    walk(s.program, s.pc + 1, 1, target) == walk(s.program, j + 1, 1, target),
                decreases PROGRAM_SIZE - j,
            {
                if j + 1 >= PROGRAM_SIZE {
                    return Err(Fault::JumpTargetNotFound(target));
                }
                j = j + 1;
                if self.program_memory[j].0 as i64 == target {
                    return Ok(j);
                }
            }
        } else {
            loop
                invariant
                    s == self@,
                    j < PROGRAM_SIZE,
                    s.pc < PROGRAM_SIZE,
                    offset == target - s.position(s.pc as int),
                    offset < 0,
                    offset != i64::MIN,
                    walk(s.program, s.pc - 1, -1, target) == walk(s.program, j - 1, -1, target),
                decreases j,
            {
                if j == 0 {
                    return Err(Fault::JumpTargetNotFound(target));
                }
                j = j - 1;
                if self.program_memory[j].0 as i64 == target {
                    return Ok(j);
                }
            }
        }
    }
}


impl Cpu {
    /// Carries out the instruction in the current slot, which must be one
    /// the machine can carry out (see `inst_result`). The program counter is
    /// not yet advanced: the outcome says whether it should be.
    pub fn run_inst(&mut self) -> (res: InstOutcome)
        requires
            inst_result(old(self)@) is Ok,
        ensures
            (final(self)@, res) == inst_result(old(self)@)->Ok_0,
            final(self).pc < PROGRAM_SIZE,
    {
        match self.try_run_inst() {
            Ok(o) => o,
            Err(_) => vstd::pervasive::unreached(),
        }
    }

    /// Carries out the instruction in the current slot, or reports the fault
    /// that stops it. On success the program counter is not yet advanced:
    /// the outcome says whether it should be. On a fault nothing changes.
    pub fn try_run_inst(&mut self) -> (res: Result<InstOutcome, Fault>)
        ensures
            match inst_result(old(self)@) {
                Ok((s, o)) => res == Ok::<InstOutcome, Fault>(o) && final(self)@ == s,
                Err(f) => res == Err::<InstOutcome, Fault>(f) && final(self)@ == old(self)@,
            },
            res is Ok ==> final(self).pc < PROGRAM_SIZE,
    {
        if self.pc >= PROGRAM_SIZE {
            return Err(Fault::PcOutOfRange(self.pc));
        }
        let (pos, inst) = self.program_memory[self.pc];
        match inst {
            Inst::AddUpperImmediateToPc(rd, imm) => {
                let pc_addr = match self.program_start.checked_add(pos) {
                    Some(a) => a,
                    None => {
                        return Err(Fault::Overflow);
                    },
                };
                self.write_reg(rd, (pc_addr as u32).wrapping_add(imm as u32))
            },
            Inst::AddImmediate(rd, rs, imm) => {
                let a = match self.read_reg(rs) {
                    Ok(v) => v,
                    Err(f) => {
                        return Err(f);
                    },
                };
                self.write_reg(rd, (a as i64 + imm as i64) as u32)
            },
            Inst::Add(rd, rs1, rs2) => {
                let a = match self.read_reg(rs1) {
                    Ok(v) => v,
                    Err(f) => {
                        return Err(f);
                    },
                };
                let b = match self.read_reg(rs2) {
                    Ok(v) => v,
                    Err(f) => {
                        return Err(f);
                    },
                };
                match a.checked_add(b) {
                    Some(sum) => self.write_reg(rd, sum),
                    None => Err(Fault::Overflow),
                }
            },
            Inst::Move(rd, rs) => {
                let a = match self.read_reg(rs) {
                    Ok(v) => v,
                    Err(f) => {
                        return Err(f);
                    },
                };
                self.write_reg(rd, a)
            },
            Inst::BranchLessThan(rs1, rs2, imm) => {
                let a = match self.read_reg(rs1) {
                    Ok(v) => v,
                    Err(f) => {
                        return Err(f);
                    },
                };
                let b = match self.read_reg(rs2) {
                    Ok(v) => v,
                    Err(f) => {
                        return Err(f);
                    },
                };
                self.take_branch(a < b, imm, true)
            },
            Inst::BranchNotEquals(rs1, rs2, imm) => {
                let a = match self.read_reg(rs1) {
                    Ok(v) => v,
                    Err(f) => {
                        return Err(f);
                    },
                };
                let b = match self.read_reg(rs2) {
                    Ok(v) => v,
                    Err(f) => {
                        return Err(f);
                    },
                };
                self.take_branch(a != b, imm, false)
            },
            Inst::BranchLessEq(rs1, rs2, imm) => {
                let a = match self.read_reg(rs1) {
                    Ok(v) => v,
                    Err(f) => {
                        return Err(f);
                    },
                };
                let b = match self.read_reg(rs2) {
                    Ok(v) => v,
                    Err(f) => {
                        return Err(f);
                    },
                };
                self.take_branch(a <= b, imm, true)
            },
            Inst::Print(r) => {
                let a = match self.read_reg(r) {
                    Ok(v) => v,
                    Err(f) => {
                        return Err(f);
                    },
                };
                Ok(InstOutcome { advance: true, request: Some(Request::Print(a)) })
            },
            Inst::StoreWord(src, offset, base) => {
                let addr = match self.read_reg(base) {
                    Ok(v) => v,
                    Err(f) => {
                        return Err(f);
                    },
                };
                let value = match self.read_reg(src) {
                    Ok(v) => v,
                    Err(f) => {
                        return Err(f);
                    },
                };
                let index = addr as i64 + offset as i64;
                if index < 0 || index as u64 >= self.heap.len() as u64 {
                    return Err(Fault::HeapOutOfRange(index));
                }
                self.heap.set(index as usize, value);
                Ok(InstOutcome { advance: true, request: None })
            },
            Inst::LoadWord(rd, offset, base) => {
                let addr = match self.read_reg(base) {
                    Ok(v) => v,
                    Err(f) => {
                        return Err(f);
                    },
                };
                let index = addr as i64 + offset as i64;
                if index < 0 || index as u64 >= self.heap.len() as u64 {
                    return Err(Fault::HeapOutOfRange(index));
                }
                let value = self.heap[index as usize];
                self.write_reg(rd, value)
            },
            Inst::LoadUpperImmediate(rd, imm) => self.write_reg(rd, (imm as u32) << 12u32),
            Inst::Xor(rd, rs1, rs2) => {
                let a = match self.read_reg(rs1) {
                    Ok(v) => v,
                    Err(f) => {
                        return Err(f);
                    },
                };
                let b = match self.read_reg(rs2) {
                    Ok(v) => v,
                    Err(f) => {
                        return Err(f);
                    },
                };
                self.write_reg(rd, a ^ b)
            },
            Inst::XorImm(rd, rs, imm) => {
                let a = match self.read_reg(rs) {
                    Ok(v) => v,
                    Err(f) => {
                        return Err(f);
                    },
                };
                self.write_reg(rd, a ^ (imm as u32))
            },
            Inst::Not(rd, rs) => {
                let a = match self.read_reg(rs) {
                    Ok(v) => v,
                    Err(f) => {
                        return Err(f);
                    },
                };
                self.write_reg(rd, !a)
            },
            Inst::And(rd, rs1, rs2) => {
                let a = match self.read_reg(rs1) {
                    Ok(v) => v,
                    Err(f) => {
                        return Err(f);
                    },
                };
                let b = match self.read_reg(rs2) {
                    Ok(v) => v,
                    Err(f) => {
                        return Err(f);
                    },
                };
                self.write_reg(rd, a & b)
            },
            Inst::Or(rd, rs1, rs2) => {
                let a = match self.read_reg(rs1) {
                    Ok(v) => v,
                    Err(f) => {
                        return Err(f);
                    },
                };
                let b = match self.read_reg(rs2) {
                    Ok(v) => v,
                    Err(f) => {
                        return Err(f);
                    },
                };
                self.write_reg(rd, a | b)
            },
            Inst::Ecall => {
                let host = translate_syscall(self.x[ARGUMENT7]);
                self.ecall_outcome(host)
            },
            Inst::JumpAndLinkReturn(rd, rs1, imm) => {
                if self.pc + 1 >= PROGRAM_SIZE {
                    return Err(Fault::PcOutOfRange(self.pc + 1));
                }
                if rd as usize >= REGISTER_COUNT {
                    return Err(Fault::RegisterOutOfRange(rd));
                }
                let link = self.program_memory[self.pc + 1].0 as u32;
                if rs1 as usize >= REGISTER_COUNT {
                    return Err(Fault::RegisterOutOfRange(rs1));
                }
                let base = if rs1 == rd {
                    link
                } else {
                    self.x[rs1 as usize]
                };
                let target = base as i64 + imm as i64;
                match self.find_target(target) {
                    Err(f) => Err(f),
                    Ok(_) => {
                        self.jump_to(target);
                        self.x[rd as usize] = link;
                        proof {
                            assert(self@.x =~= old(self)@.x.update(rd as int, link));
                        }
                        Ok(InstOutcome { advance: false, request: None })
                    },
                }
            },
            Inst::JumpAndLink(rd, imm) => {
                if self.pc + 1 >= PROGRAM_SIZE {
                    return Err(Fault::PcOutOfRange(self.pc + 1));
                }
                if rd as usize >= REGISTER_COUNT {
                    return Err(Fault::RegisterOutOfRange(rd));
                }
                let link = self.program_memory[self.pc + 1].0 as u32;
                let target = match self.relative(imm) {
                    Some(t) => t,
                    None => {
                        return Err(Fault::Overflow);
                    },
                };
                match self.find_target(target) {
                    Err(f) => Err(f),
                    Ok(_) => {
                        self.jump_to(target);
                        self.x[rd as usize] = link;
                        proof {
                            assert(self@.x =~= old(self)@.x.update(rd as int, link));
                        }
                        Ok(InstOutcome { advance: false, request: None })
                    },
                }
            },
            Inst::Dump => Ok(InstOutcome { advance: true, request: Some(Request::Dump { pc: self.pc }) }),
            Inst::LoadImmediate(rd, imm) => self.write_reg(rd, imm as u32),
            other => Err(Fault::Unimplemented(other)),
        }
    }
}


/// One step of the machine: the step counter goes up by one, `x0` is
/// cleared, the current instruction is carried out, and the program counter
/// moves on to the next slot where the instruction's outcome says so. A
/// fault (a step counter that would overflow among them) changes nothing.
pub open spec fn step_result(s: MachineState) -> Result<(MachineState, InstOutcome), Fault> {
    if s.tick == u32::MAX {
        Err(Fault::Overflow)
    } else {
        let s1 = MachineState { tick: (s.tick + 1) as u32, x: s.x.update(0, 0u32), ..s };
        match inst_result(s1) {
            Err(f) => Err(f),
            Ok((s2, o)) => Ok(
                (
                    if o.advance {
                        s2.with_pc((s2.pc + 1) as usize)
                    } else {
                        s2
                    },
                    o,
                ),
            ),
        }
    }
}

/// Running the machine for at most `fuel` steps: it stops at an `Exit`
/// instruction, at a fault (in the state before the faulting step), after a
/// step that asks for outside work, or when the steps run out.
pub open spec fn run_result(s: MachineState, fuel: nat) -> (MachineState, RunStop)
    decreases fuel,
{
    if s.pc >= s.program.len() {
        (s, RunStop::Fault(Fault::PcOutOfRange(s.pc)))
    } else if s.program[s.pc as int].1 == Inst::Exit {
        (s, RunStop::Exited)
    } else if fuel == 0 {
        (s, RunStop::OutOfSteps)
    } else {
        match step_result(s) {
            Err(f) => (s, RunStop::Fault(f)),
            Ok((s2, o)) => match o.request {
                Some(r) => (s2, RunStop::Request(r)),
                None => run_result(s2, (fuel - 1) as nat),
            },
        }
    }
}

impl Cpu {
    /// Takes one step (see `step_result`).
    pub fn step(&mut self) -> (res: Result<InstOutcome, Fault>)
        ensures
            match step_result(old(self)@) {
                Ok((s, o)) => res == Ok::<InstOutcome, Fault>(o) && final(self)@ == s,
                Err(f) => res == Err::<InstOutcome, Fault>(f) && final(self)@ == old(self)@,
            },
    {
        if self.tick == u32::MAX {
            return Err(Fault::Overflow);
        }
        let saved_x0 = self.x[0];
        self.tick = self.tick + 1;
        self.x[0] = 0;
        match self.try_run_inst() {
            Err(f) => {
                self.tick = self.tick - 1;
                self.x[0] = saved_x0;
                proof {
                    assert(self@.x =~= old(self)@.x);
                }
                Err(f)
            },
            Ok(o) => {
                if o.advance {
                    self.pc = self.pc + 1;
                }
                Ok(o)
            },
        }
    }

    /// Runs the machine for at most `max_steps` steps (see `run_result`).
    pub fn run_steps(&mut self, max_steps: u64) -> (r: RunStop)
        ensures
            (final(self)@, r) == run_result(old(self)@, max_steps as nat),
    {
        let mut fuel = max_steps;
        loop
            invariant
                run_result(old(self)@, max_steps as nat) == run_result(self@, fuel as nat),
            decreases fuel,
        {
            if self.pc >= PROGRAM_SIZE {
                return RunStop::Fault(Fault::PcOutOfRange(self.pc));
            }
            if self.program_memory[self.pc].1 == Inst::Exit {
                return RunStop::Exited;
            }
            if fuel == 0 {
                return RunStop::OutOfSteps;
            }
            match self.step() {
                Err(f) => {
                    return RunStop::Fault(f);
                },
                Ok(o) => match o.request {
                    Some(r) => {
                        return RunStop::Request(r);
                    },
                    None => {},
                },
            }
            fuel = fuel - 1;
        }
    }

    /// Runs the machine until it reaches `Exit`, faults or asks for outside
    /// work (or, in the unlikely case, `u64::MAX` steps have been taken).
    pub fn run(&mut self) -> (r: RunStop)
        ensures
            (final(self)@, r) == run_result(old(self)@, u64::MAX as nat),
    {
        self.run_steps(u64::MAX)
    }
}


/// The state with the first slots of program memory replaced by `slots`.
pub open spec fn with_program_prefix(s: MachineState, slots: Seq<(usize, Inst)>) -> MachineState {
    MachineState { program: slots + s.program.skip(slots.len() as int), ..s }
}

/// Instructions laid out four bytes apart from position 0.
pub open spec fn four_byte_layout(insts: Seq<Inst>) -> Seq<(usize, Inst)> {
    Seq::new(insts.len(), |i: int| ((4 * i) as usize, insts[i]))
}

/// The size in bytes of a raw instruction.
pub open spec fn raw_size(raw: RawInst) -> nat {
    match raw {
        RawInst::Compressed(_) => 2,
        RawInst::Normal(_) => 4,
    }
}

/// The byte position of the `i`-th raw instruction: the sizes of those
/// before it, added up.
pub open spec fn raw_offset(raws: Seq<RawInst>, i: int) -> nat
    decreases i,
{
    if i <= 0 {
        0
    } else {
        raw_offset(raws, i - 1) + raw_size(raws[i - 1])
    }
}

/// The decoded instructions of `raws`, each at its byte position.
pub open spec fn decoded_layout(raws: Seq<RawInst>) -> Seq<(usize, Inst)> {
    Seq::new(
        raws.len(),
        |i: int| (raw_offset(raws, i) as usize, decoded_raw(raws[i])->Ok_0),
    )
}

/// The slot execution starts from: the last `k` among `1 ..= n` such that the
/// first `k` instructions take up exactly `entry` bytes, or 0 if there is none.
pub open spec fn entry_slot(raws: Seq<RawInst>, n: int, entry: int) -> nat
    decreases n,
{
    if n <= 0 {
        0
    } else if raw_offset(raws, n) == entry {
        n as nat
    } else {
        entry_slot(raws, n - 1, entry)
    }
}

/// Whether a program can be put into a machine: it fits into program memory,
/// every instruction decodes, and the entry address does not lie before
/// the program's start.
pub open spec fn program_loadable(s: MachineState, raws: Seq<RawInst>) -> bool {
    &&& raws.len() <= PROGRAM_SIZE
    &&& forall|i: int| 0 <= i < raws.len() ==> (#[trigger] decoded_raw(raws[i])) is Ok
    &&& s.entry_address >= s.program_start
}

/// The state after putting the program `raws` into program memory and
/// pointing the program counter at the entry instruction.
pub open spec fn with_program(s: MachineState, raws: Seq<RawInst>) -> MachineState {
    with_program_prefix(s, decoded_layout(raws)).with_pc(
        entry_slot(raws, raws.len() as int, s.entry_address - s.program_start) as usize,
    )
}

impl Cpu {
    /// Puts `program` into the first slots of program memory; the other
    /// slots keep what they held.
    pub fn set_instructions(&mut self, program: Vec<(usize, Inst)>)
        requires
            program.len() <= PROGRAM_SIZE,
        ensures
            final(self)@ == with_program_prefix(old(self)@, program@),
    {
        let n = program.len();
        proof {
            assert(with_program_prefix(old(self)@, program@.take(0)).program =~= old(self)@.program);
        }
        for i in 0..n
            invariant
                n == program.len(),
                n <= PROGRAM_SIZE,
                self@ == with_program_prefix(old(self)@, program@.take(i as int)),
        {
            self.program_memory[i] = program[i];
            proof {
                assert(self@.program =~= program@.take(i + 1) + old(self)@.program.skip(i + 1));
                assert(self@ == with_program_prefix(old(self)@, program@.take(i + 1)));
            }
        }
        proof {
            assert(program@.take(n as int) =~= program@);
        }
    }

    /// Puts `program` into the first slots of program memory, the
    /// instructions four bytes apart from position 0.
    pub fn set_instructions_debug(&mut self, program: Vec<Inst>)
        requires
            program.len() <= PROGRAM_SIZE,
        ensures
            final(self)@ == with_program_prefix(old(self)@, four_byte_layout(program@)),
    {
        let n = program.len();
        let mut pos: usize = 0;
        proof {
            assert(with_program_prefix(old(self)@, four_byte_layout(program@).take(0)).program
                =~= old(self)@.program);
        }
        for i in 0..n
            invariant
                n == program.len(),
                n <= PROGRAM_SIZE,
                pos == 4 * i,
                self@ == with_program_prefix(old(self)@, four_byte_layout(program@).take(i as int)),
        {
            self.program_memory[i] = (pos, program[i]);
            pos = pos + 4;
            proof {
                assert(self@.program =~= four_byte_layout(program@).take(i + 1) + old(
                    self,
                )@.program.skip(i + 1));
                assert(self@ == with_program_prefix(
                    old(self)@,
                    four_byte_layout(program@).take(i + 1),
                ));
            }
        }
        proof {
            assert(four_byte_layout(program@).take(n as int) =~= four_byte_layout(program@));
        }
    }

    /// Decodes `program` into program memory, each instruction at its byte
    /// position, and points the program counter at the instruction that
    /// starts `entry_address - program_start` bytes into the program.
    pub fn set_program(&mut self, program: Program)
        requires
            program_loadable(old(self)@, program@),
        ensures
            final(self)@ == with_program(old(self)@, program@),
    {
        let ghost raws = program@;
        let mut program = program;
        let entry_offset = self.entry_address - self.program_start;
        let mut slots: Vec<(usize, Inst)> = Vec::new();
        let mut off: usize = 0;
        let mut inst_count: usize = 0;
        let mut starting_pc: usize = 0;
        loop
            invariant
                program_loadable(old(self)@, raws),
                self@ == old(self)@,
                entry_offset == self.entry_address - self.program_start,
                inst_count <= raws.len(),
                program@ == raws.skip(inst_count as int),
                slots@ == decoded_layout(raws).take(inst_count as int),
                off == raw_offset(raws, inst_count as int),
                off <= 4 * inst_count,
                starting_pc == entry_slot(raws, inst_count as int, entry_offset as int),
            ensures
                inst_count == raws.len(),
                slots@ == decoded_layout(raws).take(inst_count as int),
                starting_pc == entry_slot(raws, inst_count as int, entry_offset as int),
                self@ == old(self)@,
                entry_offset == self.entry_address - self.program_start,
            decreases program@.len(),
        {
            let raw = match program.next() {
                Some(r) => r,
                None => {
                    break;
                },
            };
            proof {
                assert(raws.skip(inst_count as int)[0] == raws[inst_count as int]);
                assert(raws.skip(inst_count as int).drop_first() =~= raws.skip(inst_count + 1));
            }
            let inst = match Inst::try_from(raw) {
                Ok(i) => i,
                Err(_) => {
                    proof {
                        assert(decoded_raw(raws[inst_count as int]) is Ok);
                    }
                    vstd::pervasive::unreached()
                },
            };
            slots.push((off, inst));
            match raw {
                RawInst::Compressed(_) => off = off + 2,
                RawInst::Normal(_) => off = off + 4,
            }
            inst_count = inst_count + 1;
            if off == entry_offset {
                starting_pc = inst_count;
            }
            proof {
                assert(slots@ =~= decoded_layout(raws).take(inst_count as int));
            }
        }
        proof {
            assert(decoded_layout(raws).take(inst_count as int) =~= decoded_layout(raws));
        }
        self.set_instructions(slots);
        self.pc = starting_pc;
    }
}

} // verus!
