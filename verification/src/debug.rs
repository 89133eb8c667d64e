use vstd::prelude::*;

use crate::cpu::{step_result, Cpu, Fault, InstOutcome, MachineState, PROGRAM_SIZE};
use crate::inst::Inst;

verus! {

/// A command of the interactive debugger.
#[derive(Debug, Clone, Copy, PartialEq, Eq, Structural)]
pub enum DebugCommand {
    /// `reg`: show the registers.
    Registers,
    /// `n`: show the current instruction, then take one step.
    Next,
    /// `heap`: show the start of the heap.
    Heap,
    /// `inst`: show the current instruction.
    Inst,
    /// `insts`: list the program's instructions.
    Insts,
    /// `pc`: show the program counter and the address it stands for.
    Pc,
    /// `clear`: clear the screen.
    Clear,
    /// `run`: leave the debugger and run on.
    Run,
    /// `virtmem`: show the loaded segments.
    VirtualMemory,
    /// `dump`: show the machine state.
    Dump,
    /// `exit`: stop without running on.
    Exit,
    /// Anything else: ignored.
    Unknown,
}

/// What the debugger does for a command.
#[derive(Debug, Clone, Copy)]
pub enum DebugAction {
    /// Show something (registers, heap, instructions, ...) as the command
    /// says; the machine is unchanged.
    Show(DebugCommand),
    /// One step was taken (`n`), with this result.
    Stepped(Result<InstOutcome, Fault>),
    /// Leave the debugger and run on (`run`).
    RunOn,
    /// Stop without running on (`exit`).
    Quit,
}

/// The state after a debugger command and what the debugger does for it:
/// `n` takes one step (see `step_result`); every other command leaves the
/// machine unchanged.
pub open spec fn debug_result(s: MachineState, command: DebugCommand) -> (MachineState, DebugAction) {
    match command {
        DebugCommand::Next => match step_result(s) {
            Ok((s2, o)) => (s2, DebugAction::Stepped(Ok(o))),
            Err(f) => (s, DebugAction::Stepped(Err(f))),
        },
        DebugCommand::Run => (s, DebugAction::RunOn),
        DebugCommand::Exit => (s, DebugAction::Quit),
        other => (s, DebugAction::Show(other)),
    }
}

/// The command that a (trimmed) input line names.
pub open spec fn command_of(line: Seq<char>) -> DebugCommand {
    if line == "reg"@ {
        DebugCommand::Registers
    } else if line == "n"@ {
        DebugCommand::Next
    } else if line == "heap"@ {
        DebugCommand::Heap
    } else if line == "inst"@ {
        DebugCommand::Inst
    } else if line == "insts"@ {
        DebugCommand::Insts
    } else if line == "pc"@ {
        DebugCommand::Pc
    } else if line == "clear"@ {
        DebugCommand::Clear
    } else if line == "run"@ {
        DebugCommand::Run
    } else if line == "virtmem"@ {
        DebugCommand::VirtualMemory
    } else if line == "dump"@ {
        DebugCommand::Dump
    } else if line == "exit"@ {
        DebugCommand::Exit
    } else {
        DebugCommand::Unknown
    }
}

impl DebugCommand {
    /// The command that a (trimmed) input line names.
    pub fn parse(line: &str) -> (r: DebugCommand)
        ensures
            r == command_of(line@),
    {
        let line = line.to_owned();
        if line == "reg".to_owned() {
            DebugCommand::Registers
        } else if line == "n".to_owned() {
            DebugCommand::Next
        } else if line == "heap".to_owned() {
            DebugCommand::Heap
        } else if line == "inst".to_owned() {
            DebugCommand::Inst
        } else if line == "insts".to_owned() {
            DebugCommand::Insts
        } else if line == "pc".to_owned() {
            DebugCommand::Pc
        } else if line == "clear".to_owned() {
            DebugCommand::Clear
        } else if line == "run".to_owned() {
            DebugCommand::Run
        } else if line == "virtmem".to_owned() {
            DebugCommand::VirtualMemory
        } else if line == "dump".to_owned() {
            DebugCommand::Dump
        } else if line == "exit".to_owned() {
            DebugCommand::Exit
        } else {
            DebugCommand::Unknown
        }
    }
}

/// The number of slots before the first `Exit` in `program`.
pub open spec fn listing_len(program: Seq<(usize, Inst)>) -> nat
    decreases program.len(),
{
    if program.len() == 0 {
        0
    } else if program[0].1 == Inst::Exit {
        0
    } else {
        1 + listing_len(program.drop_first())
    }
}

/// The word that names each command at the debugger's prompt (the empty
/// line for `Unknown`, which no word names).
pub open spec fn command_word(c: DebugCommand) -> Seq<char> {
    match c {
        DebugCommand::Registers => seq!['r', 'e', 'g'],
        DebugCommand::Next => seq!['n'],
        DebugCommand::Heap => seq!['h', 'e', 'a', 'p'],
        DebugCommand::Inst => seq!['i', 'n', 's', 't'],
        DebugCommand::Insts => seq!['i', 'n', 's', 't', 's'],
        DebugCommand::Pc => seq!['p', 'c'],
        DebugCommand::Clear => seq!['c', 'l', 'e', 'a', 'r'],
        DebugCommand::Run => seq!['r', 'u', 'n'],
        DebugCommand::VirtualMemory => seq!['v', 'i', 'r', 't', 'm', 'e', 'm'],
        DebugCommand::Dump => seq!['d', 'u', 'm', 'p'],
        DebugCommand::Exit => seq!['e', 'x', 'i', 't'],
        DebugCommand::Unknown => seq![],
    }
}

/// The command literals of `command_of` spell the command words.
proof fn lemma_command_literals()
    ensures
        "reg"@ == command_word(DebugCommand::Registers),
        "n"@ == command_word(DebugCommand::Next),
        "heap"@ == command_word(DebugCommand::Heap),
        "inst"@ == command_word(DebugCommand::Inst),
        "insts"@ == command_word(DebugCommand::Insts),
        "pc"@ == command_word(DebugCommand::Pc),
        "clear"@ == command_word(DebugCommand::Clear),
        "run"@ == command_word(DebugCommand::Run),
        "virtmem"@ == command_word(DebugCommand::VirtualMemory),
        "dump"@ == command_word(DebugCommand::Dump),
        "exit"@ == command_word(DebugCommand::Exit),
{
    reveal_strlit("reg");
    reveal_strlit("n");
    reveal_strlit("heap");
    reveal_strlit("inst");
    reveal_strlit("insts");
    reveal_strlit("pc");
    reveal_strlit("clear");
    reveal_strlit("run");
    reveal_strlit("virtmem");
    reveal_strlit("dump");
    reveal_strlit("exit");
}

/// Each command word parses to its own command: `parse("run")` is `Run`,
/// `parse("n")` is `Next`, and so on for all eleven words.
pub proof fn law_command_words_parse(c: DebugCommand)
    requires
        c != DebugCommand::Unknown,
    ensures
        command_of(command_word(c)) == c,
{
    lemma_command_literals();
    let w = command_word(c);
    // Words of equal length differ in their first or second letter.
    match c {
        DebugCommand::Inst => assert(w[0] != command_word(DebugCommand::Heap)[0]),
        DebugCommand::Insts => assert(w.len() != command_word(DebugCommand::Inst).len()),
        DebugCommand::Clear => assert(w[0] != command_word(DebugCommand::Insts)[0]),
        DebugCommand::Run => assert(w[1] != command_word(DebugCommand::Registers)[1]),
        DebugCommand::Dump => {
            assert(w[0] != command_word(DebugCommand::Heap)[0]);
            assert(w[0] != command_word(DebugCommand::Inst)[0]);
        },
        DebugCommand::Exit => {
            assert(w[0] != command_word(DebugCommand::Heap)[0]);
            assert(w[0] != command_word(DebugCommand::Inst)[0]);
            assert(w[0] != command_word(DebugCommand::Dump)[0]);
        },
        _ => {},
    }
}

/// Only the command words parse to a command: any other line is `Unknown`.
pub proof fn law_only_command_words_parse(line: Seq<char>)
    ensures
        command_of(line) != DebugCommand::Unknown ==> line == command_word(command_of(line)),
{
    lemma_command_literals();
}

impl Cpu {
    /// Carries out a debugger command (see `debug_result`).
    pub fn debug_command(&mut self, command: DebugCommand) -> (r: DebugAction)
        ensures
            (final(self)@, r) == debug_result(old(self)@, command),
    {
        match command {
            DebugCommand::Next => DebugAction::Stepped(self.step()),
            DebugCommand::Run => DebugAction::RunOn,
            DebugCommand::Exit => DebugAction::Quit,
            other => DebugAction::Show(other),
        }
    }

    /// Whether the current slot holds `Exit`; a fault if the program counter
    /// lies outside program memory.
    pub fn at_exit(&self) -> (r: Result<bool, Fault>)
        ensures
            self.pc < PROGRAM_SIZE ==> r == Ok::<bool, Fault>(self.program_memory@[self.pc as int].1 == Inst::Exit),
            self.pc >= PROGRAM_SIZE ==> r == Err::<bool, Fault>(Fault::PcOutOfRange(self.pc)),
    {
        if self.pc >= PROGRAM_SIZE {
            Err(Fault::PcOutOfRange(self.pc))
        } else {
            Ok(self.program_memory[self.pc].1 == Inst::Exit)
        }
    }

    /// The instructions of program memory up to the first `Exit`.
    pub fn instruction_listing(&self) -> (r: Vec<Inst>)
        ensures
            r@.len() == listing_len(self.program_memory@),
            forall|i: int| 0 <= i < r@.len() ==> r@[i] == self.program_memory@[i].1,
    {
        let ghost p = self.program_memory@;
        let mut r: Vec<Inst> = Vec::new();
        let mut i: usize = 0;
        proof {
            assert(p.skip(0) =~= p);
        }
        while i < PROGRAM_SIZE
            invariant
                p == self.program_memory@,
                i <= PROGRAM_SIZE,
                r@.len() == i,
                forall|k: int| 0 <= k < i ==> r@[k] == p[k].1,
                listing_len(p) == i + listing_len(p.skip(i as int)),
            ensures
                r@.len() == listing_len(p),
                forall|k: int| 0 <= k < r@.len() ==> r@[k] == p[k].1,
            decreases PROGRAM_SIZE - i,
        {
            proof {
                assert(p.skip(i as int).drop_first() =~= p.skip(i + 1));
            }
            if self.program_memory[i].1 == Inst::Exit {
                break;
            }
            r.push(self.program_memory[i].1);
            i = i + 1;
        }
        proof {
            if i == PROGRAM_SIZE {
                assert(p.skip(i as int).len() == 0);
            }
        }
        r
    }

    /// The address that the program counter stands for when every
    /// instruction takes four bytes: `program_start + 4 * pc`, `None` where it
    /// overflows.
    pub fn pc_address(&self) -> (r: Option<usize>)
        ensures
            r == (if self.program_start + 4 * self.pc <= usize::MAX {
                Some((self.program_start + 4 * self.pc) as usize)
            } else {
                None::<usize>
            }),
    {
        if self.pc > (usize::MAX - self.program_start) / 4 {
            None
        } else {
            Some(self.program_start + 4 * self.pc)
        }
    }
}

} // verus!
