use rv32emu::cpu::Cpu;
use rv32emu::elf::{ElfImage, LoadError, SectionInfo, SegmentInfo};
use rv32emu::inst::Inst;
use rv32emu::virtual_memory::VirtualMemory;

fn put16(b: &mut Vec<u8>, v: u16) {
    b.extend_from_slice(&v.to_le_bytes());
}

fn put32(b: &mut Vec<u8>, v: u32) {
    b.extend_from_slice(&v.to_le_bytes());
}

/// A 32-bit RISC-V ELF executable with one loadable segment and a `.text`
/// section at file offset 84 holding `c.li a0,5` and `addi a1,a0,1`,
/// entered at the `addi`.
fn tiny_elf() -> Vec<u8> {
    let mut b = Vec::new();
    b.extend_from_slice(&[0x7f, b'E', b'L', b'F', 1, 1, 1, 0, 0, 0, 0, 0, 0, 0, 0, 0]);
    put16(&mut b, 2); // executable
    put16(&mut b, 0xf3); // RISC-V
    put32(&mut b, 1);
    put32(&mut b, 0x10056); // entry
    put32(&mut b, 52); // program headers
    put32(&mut b, 108); // section headers
    put32(&mut b, 0);
    put16(&mut b, 52);
    put16(&mut b, 32);
    put16(&mut b, 1);
    put16(&mut b, 40);
    put16(&mut b, 3);
    put16(&mut b, 2);
    // program header
    for v in [1u32, 84, 0x10054, 0x10054, 6, 6, 5, 2] {
        put32(&mut b, v);
    }
    // .text
    b.extend_from_slice(&[0x15, 0x45, 0x93, 0x05, 0x15, 0x00]);
    // .shstrtab
    b.extend_from_slice(b"\0.text\0.shstrtab\0");
    b.push(0);
    assert_eq!(b.len(), 108);
    // section headers: null, .text, .shstrtab
    for _ in 0..10 {
        put32(&mut b, 0);
    }
    for v in [1u32, 1, 6, 0x10054, 84, 6, 0, 0, 2, 0] {
        put32(&mut b, v);
    }
    for v in [7u32, 3, 0, 0, 90, 17, 0, 0, 1, 0] {
        put32(&mut b, v);
    }
    b
}

#[test]
fn loads_an_elf_executable() {
    let mut cpu = Cpu::default();
    assert_eq!(cpu.load_elf(&tiny_elf()), Ok(()));
    assert_eq!(cpu.program_start, 0x10054);
    assert_eq!(cpu.entry_address, 0x10056);
    assert_eq!(cpu.program_memory[0], (0, Inst::LoadImmediate(10, 5)));
    assert_eq!(cpu.program_memory[1], (2, Inst::AddImmediate(11, 10, 1)));
    assert_eq!(cpu.program_memory[2], (0, Inst::Exit));
    assert_eq!(cpu.pc, 1);
    assert_eq!(
        cpu.virtmems,
        vec![VirtualMemory { raw_pointer: 0x10054, size: 6, offset: 84, flags: 5 }]
    );
}

#[test]
fn rejects_bytes_that_are_no_elf_image() {
    let mut cpu = Cpu::default();
    assert_eq!(cpu.load_elf(&vec![1, 2, 3, 4]), Err(LoadError::Parse));
    assert_eq!(cpu.pc, 0);
    assert!(cpu.virtmems.is_empty());
}

fn section(name: Option<&str>, offset: u64, size: u64) -> SectionInfo {
    SectionInfo { name: name.map(|n| n.to_string()), offset, size }
}

fn image(entry: u64, sections: Vec<SectionInfo>, segments: Vec<SegmentInfo>) -> ElfImage {
    ElfImage { entry, sections, segments }
}

#[test]
fn takes_the_last_text_section_and_the_loadable_segments() {
    let buffer = vec![0x15u8, 0x45, 0x2e, 0x85, 0x01];
    let img = image(
        0x10002,
        vec![section(Some(".text"), 4, 0), section(Some(".data"), 0, 1), section(Some(".text"), 0, 5)],
        vec![
            SegmentInfo { p_type: 1, flags: 5, offset: 0, vaddr: 0x10000, memsz: 8 },
            SegmentInfo { p_type: 1, flags: 6, offset: 0, vaddr: 0x20000, memsz: 0 },
            SegmentInfo { p_type: 2, flags: 6, offset: 0, vaddr: 0x30000, memsz: 4 },
        ],
    );
    let mut cpu = Cpu::default();
    assert_eq!(cpu.load_elf_image(&img, &buffer), Ok(()));
    assert_eq!(cpu.program_start, 0x10000);
    // the odd last byte is dropped
    assert_eq!(cpu.program_memory[0], (0, Inst::LoadImmediate(10, 5)));
    assert_eq!(cpu.program_memory[1], (2, Inst::Move(10, 11)));
    assert_eq!(cpu.program_memory[2], (0, Inst::Exit));
    assert_eq!(cpu.pc, 1);
    assert_eq!(
        cpu.virtmems,
        vec![VirtualMemory { raw_pointer: 0x10000, size: 8, offset: 0, flags: 5 }]
    );
}

#[test]
fn reports_each_load_error_and_changes_nothing() {
    let buffer = vec![0x15u8, 0x45, 0x01, 0x88];
    let mut cpu = Cpu::default();
    let cases = [
        (image(0x10000, vec![section(None, 0, 2)], vec![]), LoadError::UnnamedSection),
        (image(0x10000, vec![section(Some(".text"), 2, 4)], vec![]), LoadError::TextOutOfRange),
        (image(0x10000, vec![section(Some(".text"), u64::MAX, 4)], vec![]), LoadError::AddressOverflow),
        (image(0x0fff, vec![section(Some(".text"), 0, 2)], vec![]), LoadError::EntryBeforeText),
        (image(0x10002, vec![section(Some(".text"), 2, 2)], vec![]), LoadError::UndecodableInstruction),
    ];
    for (img, err) in cases {
        assert_eq!(cpu.load_elf_image(&img, &buffer), Err(err));
        assert_eq!(cpu.program_start, 0);
        assert_eq!(cpu.program_memory[0], (0, Inst::Exit));
        assert!(cpu.virtmems.is_empty());
    }
}

#[test]
fn rejects_programs_larger_than_program_memory() {
    let buffer: Vec<u8> = [0x15u8, 0x45].repeat(1025);
    let img = image(0x10000, vec![section(Some(".text"), 0, 2050)], vec![]);
    let mut cpu = Cpu::default();
    assert_eq!(cpu.load_elf_image(&img, &buffer), Err(LoadError::ProgramTooLarge));
    let img = image(0x10000, vec![section(Some(".text"), 0, 2048)], vec![]);
    assert_eq!(cpu.load_elf_image(&img, &buffer), Ok(()));
    assert_eq!(cpu.program_memory[1023], (2046, Inst::LoadImmediate(10, 5)));
}
