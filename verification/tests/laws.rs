use rv32emu::cpu::{Cpu, Fault, Request, RunStop};
use rv32emu::elf::{ElfImage, SectionInfo};
use rv32emu::debug::{DebugAction, DebugCommand};
use rv32emu::inst::{decompress, Inst};
use rv32emu::program::{Program, RawInst};

fn machine(program: Vec<Inst>) -> Cpu {
    let mut cpu = Cpu::default();
    cpu.set_instructions_debug(program);
    cpu
}

fn registers(inst: Inst) -> Vec<u8> {
    match inst {
        Inst::Print(a) => vec![a],
        Inst::LoadWord(a, _, b) | Inst::StoreWord(a, _, b) => vec![a, b],
        Inst::LoadImmediate(a, _)
        | Inst::LoadUpperImmediate(a, _)
        | Inst::AddUpperImmediateToPc(a, _)
        | Inst::JumpAndLink(a, _) => vec![a],
        Inst::Move(a, b) | Inst::Not(a, b) => vec![a, b],
        Inst::AddImmediate(a, b, _)
        | Inst::XorImm(a, b, _)
        | Inst::JumpAndLinkReturn(a, b, _)
        | Inst::BranchEquals(a, b, _)
        | Inst::BranchNotEquals(a, b, _)
        | Inst::BranchLessThan(a, b, _)
        | Inst::BranchLessEq(a, b, _) => vec![a, b],
        Inst::Add(a, b, c)
        | Inst::Subtract(a, b, c)
        | Inst::And(a, b, c)
        | Inst::Or(a, b, c)
        | Inst::Xor(a, b, c) => vec![a, b, c],
        Inst::ShiftLeftLogical(a, b, _)
        | Inst::ShiftRightLogical(a, b, _)
        | Inst::ShiftRightArithmetic(a, b, _) => vec![a, b],
        _ => vec![],
    }
}

#[test]
fn decoded_instructions_name_real_registers() {
    let mut word: u32 = 0;
    for _ in 0..200_000 {
        word = word.wrapping_mul(1_664_525).wrapping_add(1_013_904_223);
        for w in [word, word | 0x7f, (word & !0x7f) | 0x33, (word & !0x7f) | 0x63, (word & !0x7f) | 0x67] {
            if let Ok(inst) = Inst::try_from(w) {
                assert!(registers(inst).iter().all(|r| *r < 32), "{:08x}", w);
            }
        }
    }
    for h in 0..=u16::MAX {
        if let Ok(inst) = decompress(h) {
            assert!(registers(inst).iter().all(|r| *r < 32), "{:04x}", h);
        }
    }
}

#[test]
fn halfwords_with_both_low_bits_set_are_not_compressed() {
    for h in 0..=u16::MAX {
        if h & 3 == 3 {
            assert_eq!(decompress(h), Err(()));
        }
    }
}

#[test]
fn a_jump_lands_on_the_slot_with_the_target_position() {
    let mut cpu = machine(vec![
        Inst::LoadImmediate(1, 1),
        Inst::LoadImmediate(3, 1),
        Inst::BranchNotEquals(1, 0, -8), // pos 8 -> pos 0
    ]);
    cpu.pc = 2;
    cpu.x[1] = 1;
    assert!(cpu.step().is_ok());
    assert_eq!(cpu.pc, 0);
    assert_eq!(cpu.program_memory[cpu.pc].0, 0);
}

#[test]
fn a_load_reads_back_what_a_store_wrote() {
    let mut cpu = machine(vec![
        Inst::LoadImmediate(5, 1234),
        Inst::LoadImmediate(6, 40),
        Inst::StoreWord(5, 2, 6),
        Inst::LoadImmediate(7, 44),
        Inst::LoadWord(8, -2, 7),
    ]);
    assert!(matches!(cpu.run(), RunStop::Exited));
    assert_eq!(cpu.x[8], 1234);
    assert_eq!(cpu.heap[42], 1234);
    assert_eq!(cpu.heap.iter().filter(|w| **w != 0).count(), 1);
}

#[test]
fn running_keeps_program_memory_and_counts_steps() {
    let program = vec![
        Inst::LoadImmediate(5, 3),
        Inst::AddImmediate(5, 5, -1),
        Inst::BranchNotEquals(5, 0, -4),
    ];
    let mut cpu = machine(program);
    let before = cpu.program_memory;
    assert!(matches!(cpu.run(), RunStop::Exited));
    assert_eq!(cpu.program_memory, before);
    assert_eq!(cpu.tick, 1 + 3 + 3);
    assert_eq!(cpu.heap.len(), 64000);
}

#[test]
fn the_value_in_x0_before_a_step_does_not_matter() {
    let mut a = machine(vec![Inst::AddImmediate(4, 0, 9)]);
    let mut b = machine(vec![Inst::AddImmediate(4, 0, 9)]);
    b.x[0] = 77;
    assert!(a.step().is_ok());
    assert!(b.step().is_ok());
    assert_eq!(a.x, b.x);
    assert_eq!(a.pc, b.pc);
}

#[test]
fn a_run_ends_on_an_exit_slot_or_before_the_faulting_step() {
    let mut cpu = machine(vec![Inst::LoadImmediate(1, 1), Inst::Dump]);
    assert!(matches!(cpu.run(), RunStop::Request(Request::Dump { pc: 1 })));
    assert!(matches!(cpu.run(), RunStop::Exited));
    assert_eq!(cpu.program_memory[cpu.pc].1, Inst::Exit);

    let mut cpu = machine(vec![Inst::LoadImmediate(1, 1), Inst::Multiply(1, 1, 1)]);
    assert!(matches!(cpu.run(), RunStop::Fault(Fault::Unimplemented(Inst::Multiply(1, 1, 1)))));
    assert_eq!(cpu.pc, 1);
    assert_eq!(cpu.tick, 1);
    assert_eq!(cpu.step().unwrap_err(), Fault::Unimplemented(Inst::Multiply(1, 1, 1)));
}

#[test]
fn loading_leaves_registers_heap_and_counter_alone() {
    let mut cpu = machine(vec![Inst::LoadImmediate(9, 3), Inst::StoreWord(9, 0, 9)]);
    assert!(matches!(cpu.run(), RunStop::Exited));
    let (x, heap, tick) = (cpu.x, cpu.heap.clone(), cpu.tick);
    let image = ElfImage {
        entry: 0x10000,
        sections: vec![SectionInfo { name: Some(".text".to_string()), offset: 0, size: 2 }],
        segments: vec![],
    };
    assert_eq!(cpu.load_elf_image(&image, &vec![0x15, 0x45]), Ok(()));
    assert_eq!(cpu.x, x);
    assert_eq!(cpu.heap, heap);
    assert_eq!(cpu.tick, tick);
    assert_eq!(cpu.program_memory[0], (0, Inst::LoadImmediate(10, 5)));
}

#[test]
fn ecall_outcome_builds_the_request_from_the_argument_registers() {
    let mut cpu = Cpu::default();
    for (i, r) in (10..16).enumerate() {
        cpu.x[r] = 100 + i as u32;
    }
    cpu.x[17] = 12345;
    match cpu.ecall_outcome(Some(7)) {
        Ok(outcome) => {
            assert!(outcome.advance);
            match outcome.request {
                Some(Request::Syscall { number, args }) => {
                    assert_eq!(number, 7);
                    assert_eq!(args, (100, 101, 102, 103, 104, 105));
                }
                other => panic!("unexpected {:?}", other),
            }
        }
        Err(f) => panic!("unexpected {:?}", f),
    }
    assert_eq!(cpu.ecall_outcome(None).unwrap_err(), Fault::UnknownSyscall(12345));
}

#[test]
fn only_the_next_command_changes_the_machine() {
    let mut cpu = machine(vec![Inst::LoadImmediate(3, 8), Inst::Dump]);
    for command in [
        DebugCommand::Registers,
        DebugCommand::Heap,
        DebugCommand::Inst,
        DebugCommand::Insts,
        DebugCommand::Pc,
        DebugCommand::Clear,
        DebugCommand::VirtualMemory,
        DebugCommand::Dump,
        DebugCommand::Unknown,
    ] {
        assert!(matches!(cpu.debug_command(command), DebugAction::Show(c) if c == command));
        assert_eq!((cpu.pc, cpu.tick, cpu.x[3]), (0, 0, 0));
    }
    assert!(matches!(cpu.debug_command(DebugCommand::Run), DebugAction::RunOn));
    assert!(matches!(cpu.debug_command(DebugCommand::Exit), DebugAction::Quit));
    assert_eq!((cpu.pc, cpu.tick), (0, 0));
    assert!(matches!(cpu.debug_command(DebugCommand::Next), DebugAction::Stepped(Ok(_))));
    assert_eq!((cpu.pc, cpu.tick, cpu.x[3]), (1, 1, 8));
    match cpu.debug_command(DebugCommand::Next) {
        DebugAction::Stepped(Ok(outcome)) => {
            assert!(matches!(outcome.request, Some(Request::Dump { pc: 1 })))
        }
        other => panic!("unexpected {:?}", other),
    }
}

#[test]
fn a_halfword_stream_reassembles_from_its_raw_instructions() {
    let v: Vec<u16> = vec![0x4515, 0x0593, 0x0015, 0x862e, 0x0003];
    let mut p = Program::from(v.clone());
    let mut back = Vec::new();
    while let Some(raw) = p.next() {
        match raw {
            RawInst::Compressed(c) => {
                assert_ne!(c & 3, 3);
                back.push(c);
            }
            RawInst::Normal(n) => {
                assert_eq!(n & 3, 3);
                back.push(n as u16);
                back.push((n >> 16) as u16);
            }
        }
    }
    assert!(p.next().is_none());
    assert_eq!(back, v[0..4].to_vec());
}

#[test]
fn decoded_immediates_stay_in_their_encoding_ranges() {
    let mut word: u32 = 7;
    for _ in 0..300_000 {
        word = word.wrapping_mul(1_664_525).wrapping_add(1_013_904_223);
        for w in [word, (word & !0x7f) | 0x13, (word & !0x7f) | 0x63, (word & !0x7f) | 0x6f, (word & !0x7f) | 0x37] {
            match Inst::try_from(w) {
                Ok(Inst::AddImmediate(_, _, i))
                | Ok(Inst::XorImm(_, _, i))
                | Ok(Inst::LoadWord(_, i, _))
                | Ok(Inst::StoreWord(_, i, _))
                | Ok(Inst::JumpAndLinkReturn(_, _, i)) => assert!((-2048..=2047).contains(&i)),
                Ok(Inst::BranchLessThan(_, _, i)) | Ok(Inst::BranchNotEquals(_, _, i)) => {
                    assert!(i % 2 == 0 && (-4096..=4094).contains(&i))
                }
                Ok(Inst::JumpAndLink(_, i)) => assert!(i % 2 == 0 && (-1048576..=1048574).contains(&i)),
                Ok(Inst::AddUpperImmediateToPc(_, i)) | Ok(Inst::LoadUpperImmediate(_, i)) => {
                    assert_eq!(i % 4096, 0)
                }
                _ => {}
            }
        }
    }
}

#[test]
fn a_session_of_next_commands_then_run_equals_steps_then_a_run() {
    let program = vec![
        Inst::LoadImmediate(5, 4),
        Inst::AddImmediate(6, 6, 3),
        Inst::AddImmediate(5, 5, -1),
        Inst::BranchNotEquals(5, 0, -8),
    ];
    let mut debugged = machine(program.clone());
    for _ in 0..3 {
        assert!(matches!(debugged.debug_command(DebugCommand::Next), DebugAction::Stepped(Ok(_))));
    }
    assert!(matches!(debugged.debug_command(DebugCommand::Run), DebugAction::RunOn));
    assert!(matches!(debugged.run(), RunStop::Exited));
    let mut stepped = machine(program);
    for _ in 0..3 {
        assert!(stepped.step().is_ok());
    }
    assert!(matches!(stepped.run(), RunStop::Exited));
    assert_eq!(debugged.x, stepped.x);
    assert_eq!((debugged.pc, debugged.tick), (stepped.pc, stepped.tick));
    assert_eq!(debugged.x[6], 12);
}
