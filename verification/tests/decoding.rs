use rv32emu::inst::{decompress, Inst};
use rv32emu::program::{Program, RawInst};

#[test]
fn decompresses_quadrant_one_and_two_instructions() {
    assert_eq!(decompress(0x0001), Ok(Inst::Nop));
    assert_eq!(decompress(0x4515), Ok(Inst::LoadImmediate(10, 5)));
    assert_eq!(decompress(0x852e), Ok(Inst::Move(10, 11)));
    assert_eq!(decompress(0x952e), Ok(Inst::Add(10, 10, 11)));
    assert_eq!(decompress(0x8082), Ok(Inst::JumpAndLinkReturn(0, 1, 0)));
    assert_eq!(decompress(0x9002), Ok(Inst::Ecall));
    assert_eq!(decompress(0x4512), Ok(Inst::LoadWord(10, 4, 2)));
    assert_eq!(decompress(0x717d), Ok(Inst::AddImmediate(2, 2, -16)));
    assert_eq!(decompress(0x8d0d), Ok(Inst::Subtract(10, 10, 11)));
}

#[test]
fn decompresses_quadrant_zero_with_its_odd_immediate() {
    // The quadrant-0 add to the stack pointer takes the six-bit immediate.
    assert_eq!(decompress(0x0000), Ok(Inst::AddImmediate(8, 2, 0)));
}

#[test]
fn rejects_compressed_andi_and_quadrant_three() {
    assert_eq!(decompress(0x8801), Err(()));
    assert_eq!(decompress(0x0003), Err(()));
}

#[test]
fn decodes_compressed_jumps_and_branches() {
    // c.j -2 (jumps back one halfword): offset bits all set.
    assert_eq!(decompress(0xbffd), Ok(Inst::Jump(-2)));
    // c.beqz s0, 8
    assert_eq!(decompress(0xc401), Ok(Inst::BranchEquals(8, 0, 8)));
    // c.bnez s0, -2
    assert_eq!(decompress(0xfc7d), Ok(Inst::BranchNotEquals(8, 0, -2)));
    // c.lui a0, 1
    assert_eq!(decompress(0x6505), Ok(Inst::LoadUpperImmediate(10, 0x1000)));
}

#[test]
fn decodes_raw_instructions_of_both_widths() {
    assert_eq!(Inst::try_from(RawInst::Compressed(0x4515)), Ok(Inst::LoadImmediate(10, 5)));
    assert_eq!(Inst::try_from(RawInst::Normal(0x003100b3)), Ok(Inst::Add(1, 2, 3)));
    assert_eq!(Inst::try_from(RawInst::Normal(0x40310033)), Err(()));
}

#[test]
fn decodes_load_upper_immediate_and_shifted_immediates() {
    assert_eq!(Inst::try_from(0x123450b7u32), Ok(Inst::LoadUpperImmediate(1, 0x12345000)));
    assert_eq!(Inst::try_from(0x7ff10093u32), Ok(Inst::AddImmediate(1, 2, 2047)));
    assert_eq!(Inst::try_from(0x80010093u32), Ok(Inst::AddImmediate(1, 2, -2048)));
    // jal x0, 0x7fffe and bne with the largest forward offset
    assert_eq!(Inst::try_from(0x7ffff06fu32), Ok(Inst::JumpAndLink(0, 0xffffe)));
    assert_eq!(Inst::try_from(0x7e309fe3u32), Ok(Inst::BranchNotEquals(1, 3, 0xffe)));
}

#[test]
fn program_yields_raw_instructions_in_order() {
    let mut p = Program::from(vec![0x4515u16, 0x00b3, 0x0031, 0x0003]);
    assert!(matches!(p.next(), Some(RawInst::Compressed(0x4515))));
    assert!(matches!(p.next(), Some(RawInst::Normal(0x003100b3))));
    // a 32-bit instruction cut off by the end of the stream ends it
    assert!(p.next().is_none());
    assert!(p.next().is_none());
}

#[test]
fn empty_program_yields_nothing() {
    let mut p = Program::from(Vec::new());
    assert!(p.next().is_none());
}
