use rv32emu::cpu::{Cpu, Fault, Request, RunStop, HEAP_SIZE, PROGRAM_SIZE};
use rv32emu::debug::DebugCommand;
use rv32emu::inst::Inst;
use rv32emu::program::Program;
use rv32emu::syscall::translate_syscall;
use rv32emu::virtual_memory::VirtualMemory;

fn machine(program: Vec<Inst>) -> Cpu {
    let mut cpu = Cpu::default();
    cpu.set_instructions_debug(program);
    cpu
}

#[test]
fn default_machine_has_zeroed_heap_and_stack_pointer_at_its_end() {
    let cpu = Cpu::default();
    assert_eq!(cpu.heap.len(), HEAP_SIZE);
    assert!(cpu.heap.iter().all(|w| *w == 0));
    assert_eq!(cpu.x[2], 64000);
    assert_eq!(cpu.x.iter().filter(|r| **r != 0).count(), 1);
    assert_eq!(cpu.pc, 0);
    assert_eq!(cpu.tick, 0);
    assert!(cpu.program_memory.iter().all(|s| *s == (0, Inst::Exit)));
}

#[test]
fn run_on_exit_stops_at_once() {
    let mut cpu = Cpu::default();
    assert!(matches!(cpu.run(), RunStop::Exited));
    assert_eq!(cpu.tick, 0);
}

#[test]
fn step_counts_and_clears_x0() {
    let mut cpu = machine(vec![Inst::AddImmediate(1, 0, 3)]);
    cpu.x[0] = 5;
    let out = cpu.step().unwrap();
    assert!(out.advance && out.request.is_none());
    assert_eq!(cpu.x[1], 3);
    assert_eq!(cpu.x[0], 0);
    assert_eq!(cpu.tick, 1);
    assert_eq!(cpu.pc, 1);
}

#[test]
fn add_immediate_wraps_and_add_overflow_faults() {
    let mut cpu = machine(vec![Inst::AddImmediate(1, 0, -1), Inst::Add(2, 1, 1)]);
    assert!(cpu.step().is_ok());
    assert_eq!(cpu.x[1], u32::MAX);
    let before = cpu.x;
    assert_eq!(cpu.step().unwrap_err(), Fault::Overflow);
    // a faulting step changes nothing
    assert_eq!(cpu.x, before);
    assert_eq!(cpu.pc, 1);
    assert_eq!(cpu.tick, 1);
}

#[test]
fn load_upper_immediate_shifts_its_operand() {
    let mut cpu = machine(vec![Inst::LoadUpperImmediate(1, 0x5), Inst::Not(2, 1)]);
    assert!(matches!(cpu.run(), RunStop::Exited));
    assert_eq!(cpu.x[1], 0x5000);
    assert_eq!(cpu.x[2], !0x5000u32);
}

#[test]
fn unimplemented_and_bad_register_fault() {
    let mut cpu = machine(vec![Inst::Nop]);
    assert!(matches!(cpu.run(), RunStop::Fault(Fault::Unimplemented(Inst::Nop))));
    let mut cpu = machine(vec![Inst::Move(40, 1)]);
    assert!(matches!(cpu.run(), RunStop::Fault(Fault::RegisterOutOfRange(40))));
    let mut cpu = machine(vec![Inst::Move(1, 33)]);
    assert!(matches!(cpu.run(), RunStop::Fault(Fault::RegisterOutOfRange(33))));
}

#[test]
fn heap_accesses_outside_the_heap_fault() {
    let mut cpu = machine(vec![Inst::LoadWord(1, -1, 0)]);
    assert!(matches!(cpu.run(), RunStop::Fault(Fault::HeapOutOfRange(-1))));
    let mut cpu = machine(vec![Inst::StoreWord(1, 0, 2)]);
    // x2 points one past the heap's last word
    assert!(matches!(cpu.run(), RunStop::Fault(Fault::HeapOutOfRange(64000))));
    let mut cpu = machine(vec![Inst::AddImmediate(3, 2, -1), Inst::StoreWord(2, 0, 3)]);
    assert!(matches!(cpu.run(), RunStop::Exited));
    assert_eq!(cpu.heap[63999], 64000);
}

#[test]
fn jumps_link_and_land_on_their_targets() {
    let mut cpu = machine(vec![
        Inst::JumpAndLink(1, 8),          // pos 0 -> pos 8, x1 = 4
        Inst::LoadImmediate(5, 1),        // pos 4: skipped
        Inst::LoadImmediate(6, 2),        // pos 8
        Inst::LoadImmediate(7, 20),       // pos 12
        Inst::JumpAndLinkReturn(0, 7, 0), // pos 16 -> pos 20
        Inst::LoadImmediate(8, 3),        // pos 20
    ]);
    assert!(matches!(cpu.run(), RunStop::Exited));
    assert_eq!(cpu.x[1], 4);
    assert_eq!(cpu.x[5], 0);
    assert_eq!(cpu.x[6], 2);
    assert_eq!(cpu.x[8], 3);
    assert_eq!(cpu.pc, 6);
}

#[test]
fn taken_not_equal_branch_lands_exactly_on_target() {
    let mut cpu = machine(vec![
        Inst::LoadImmediate(1, 1),
        Inst::BranchNotEquals(1, 0, 8), // pos 4 -> pos 12
        Inst::LoadImmediate(20, 7),
        Inst::LoadImmediate(3, 9), // pos 12
    ]);
    assert!(matches!(cpu.run(), RunStop::Exited));
    assert_eq!(cpu.x[20], 0);
    assert_eq!(cpu.x[3], 9);
}

#[test]
fn taken_less_than_branch_continues_after_target() {
    let mut cpu = machine(vec![
        Inst::LoadImmediate(1, 1),
        Inst::BranchLessThan(0, 1, 8), // pos 4 -> pos 12, then on to pos 16
        Inst::LoadImmediate(20, 7),
        Inst::LoadImmediate(3, 9), // pos 12: skipped
        Inst::LoadImmediate(4, 5), // pos 16
    ]);
    assert!(matches!(cpu.run(), RunStop::Exited));
    assert_eq!(cpu.x[20], 0);
    assert_eq!(cpu.x[3], 0);
    assert_eq!(cpu.x[4], 5);
}

#[test]
fn branch_to_itself_or_to_nowhere_faults() {
    let mut cpu = machine(vec![Inst::BranchNotEquals(2, 0, 0)]);
    assert!(matches!(cpu.run(), RunStop::Fault(Fault::Overflow)));
    let mut cpu = machine(vec![Inst::BranchNotEquals(2, 0, 2)]);
    assert!(matches!(cpu.run(), RunStop::Fault(Fault::JumpTargetNotFound(2))));
    let mut cpu = machine(vec![Inst::BranchNotEquals(2, 0, -4)]);
    assert!(matches!(cpu.run(), RunStop::Fault(Fault::JumpTargetNotFound(-4))));
}

#[test]
fn print_and_dump_ask_for_outside_work() {
    let mut cpu = machine(vec![Inst::LoadImmediate(1, 42), Inst::Print(1), Inst::Dump]);
    assert!(matches!(cpu.run(), RunStop::Request(Request::Print(42))));
    assert_eq!(cpu.pc, 2);
    assert!(matches!(cpu.run(), RunStop::Request(Request::Dump { pc: 2 })));
    assert!(matches!(cpu.run(), RunStop::Exited));
}

#[test]
fn ecall_asks_for_the_host_system_call_of_the_same_name() {
    // riscv32 `write` is 64; on an x86-64 host it is 1.
    let mut cpu = machine(vec![Inst::LoadImmediate(17, 64), Inst::LoadImmediate(10, 1), Inst::Ecall]);
    match cpu.run() {
        RunStop::Request(Request::Syscall { number, args }) => {
            assert_eq!(Some(number), translate_syscall(64));
            assert_eq!(args.0, 1);
        }
        other => panic!("unexpected {:?}", other),
    }
    let mut cpu = machine(vec![Inst::LoadImmediate(17, 100000), Inst::Ecall]);
    assert!(matches!(cpu.run(), RunStop::Fault(Fault::UnknownSyscall(100000))));
}

#[test]
fn translates_riscv32_syscall_numbers() {
    assert_eq!(translate_syscall(64), Some(1)); // write
    assert_eq!(translate_syscall(93), Some(60)); // exit
    assert_eq!(translate_syscall(63), Some(0)); // read
    assert_eq!(translate_syscall(100000), None);
}

#[test]
fn run_steps_stops_when_the_budget_runs_out_and_resumes() {
    let program = vec![
        Inst::AddImmediate(1, 1, 1),
        Inst::AddImmediate(1, 1, 1),
        Inst::AddImmediate(1, 1, 1),
    ];
    let mut cpu = machine(program.clone());
    assert!(matches!(cpu.run_steps(2), RunStop::OutOfSteps));
    assert_eq!(cpu.x[1], 2);
    assert!(matches!(cpu.run_steps(5), RunStop::Exited));
    let mut whole = machine(program);
    assert!(matches!(whole.run(), RunStop::Exited));
    assert_eq!(cpu.x, whole.x);
    assert_eq!(cpu.pc, whole.pc);
    assert_eq!(cpu.tick, whole.tick);
}

#[test]
fn pc_outside_program_memory_faults() {
    let mut cpu = Cpu::default();
    cpu.pc = PROGRAM_SIZE;
    assert!(matches!(cpu.run(), RunStop::Fault(Fault::PcOutOfRange(1024))));
    assert_eq!(cpu.try_run_inst().unwrap_err(), Fault::PcOutOfRange(1024));
}

#[test]
fn set_instructions_keeps_the_slots_after_the_program() {
    let mut cpu = Cpu::default();
    cpu.set_instructions_debug(vec![Inst::Dump, Inst::Dump, Inst::Dump]);
    cpu.set_instructions(vec![(7, Inst::Ecall)]);
    assert_eq!(cpu.program_memory[0], (7, Inst::Ecall));
    assert_eq!(cpu.program_memory[1], (4, Inst::Dump));
    assert_eq!(cpu.program_memory[2], (8, Inst::Dump));
    assert_eq!(cpu.program_memory[3], (0, Inst::Exit));
}

#[test]
fn set_program_lays_out_mixed_widths_and_starts_at_the_entry() {
    let mut cpu = Cpu::default();
    cpu.program_start = 0x10000;
    cpu.entry_address = 0x10006;
    // c.li a0,5 | addi a1,a0,1 | c.mv a2,a1
    cpu.set_program(Program::from(vec![0x4515u16, 0x0593, 0x0015, 0x862e]));
    assert_eq!(cpu.program_memory[0], (0, Inst::LoadImmediate(10, 5)));
    assert_eq!(cpu.program_memory[1], (2, Inst::AddImmediate(11, 10, 1)));
    assert_eq!(cpu.program_memory[2], (6, Inst::Move(12, 11)));
    assert_eq!(cpu.program_memory[3], (0, Inst::Exit));
    assert_eq!(cpu.pc, 2);
}

#[test]
fn set_program_starts_at_slot_zero_without_a_matching_entry() {
    let mut cpu = Cpu::default();
    cpu.program_start = 0x10000;
    cpu.entry_address = 0x10001;
    cpu.set_program(Program::from(vec![0x4515u16, 0x4515]));
    assert_eq!(cpu.pc, 0);
}

#[test]
fn mapping_is_page_aligned() {
    let vm = VirtualMemory { raw_pointer: 0x10054, size: 6, offset: 84, flags: 5 };
    assert_eq!(vm.mapping(), Some((0x10000, 0x5a)));
    let big = VirtualMemory { raw_pointer: 0x10054, size: u32::MAX as usize, offset: 0, flags: 0 };
    assert_eq!(big.mapping(), None);
    assert_eq!(vm.copy_len(1000), 6);
    assert_eq!(vm.copy_len(86), 2);
    assert_eq!(vm.copy_len(80), 0);
    assert_eq!(VirtualMemory::default(), VirtualMemory { raw_pointer: 0, size: 0, offset: 0, flags: 0 });
}

#[test]
fn debug_commands_parse() {
    assert_eq!(DebugCommand::parse("reg"), DebugCommand::Registers);
    assert_eq!(DebugCommand::parse("n"), DebugCommand::Next);
    assert_eq!(DebugCommand::parse("insts"), DebugCommand::Insts);
    assert_eq!(DebugCommand::parse("virtmem"), DebugCommand::VirtualMemory);
    assert_eq!(DebugCommand::parse("exit"), DebugCommand::Exit);
    assert_eq!(DebugCommand::parse("reg "), DebugCommand::Unknown);
    assert_eq!(DebugCommand::parse(""), DebugCommand::Unknown);
}

#[test]
fn debugger_helpers_describe_the_program() {
    let mut cpu = machine(vec![Inst::Dump, Inst::Ecall]);
    assert_eq!(cpu.instruction_listing(), vec![Inst::Dump, Inst::Ecall]);
    cpu.program_start = 0x100;
    cpu.pc = 1;
    assert_eq!(cpu.pc_address(), Some(0x104));
    assert_eq!(cpu.at_exit(), Ok(false));
    cpu.pc = 2;
    assert_eq!(cpu.at_exit(), Ok(true));
    cpu.program_start = usize::MAX;
    assert_eq!(cpu.pc_address(), None);
    cpu.pc = PROGRAM_SIZE;
    assert_eq!(cpu.at_exit(), Err(Fault::PcOutOfRange(PROGRAM_SIZE)));
}
