use vstd::prelude::*;

use crate::cpu::{program_loadable, with_program, Cpu, MachineState, PROGRAM_SIZE};
use crate::inst::{decoded_raw, Inst};
use crate::program::{lemma_raw_insts_len, raw_insts, Program};
use crate::virtual_memory::VirtualMemory;

verus! {

/// A section header of an ELF image, with its name resolved.
pub struct SectionInfo {
    /// The section's name; `None` where the string table has none for it.
    pub name: Option<String>,
    pub offset: u64,
    pub size: u64,
}

/// The mathematical value of a `SectionInfo`.
pub struct SectionModel {
    pub name: Option<Seq<char>>,
    pub offset: u64,
    pub size: u64,
}

impl View for SectionInfo {
    type V = SectionModel;

    open spec fn view(&self) -> SectionModel {
        SectionModel {
            name: match self.name {
                Some(n) => Some(n@),
                None => None,
            },
            offset: self.offset,
            size: self.size,
        }
    }
}

/// A program header of an ELF image.
#[derive(Debug, Clone, Copy, PartialEq, Eq, Structural)]
pub struct SegmentInfo {
    pub p_type: u32,
    pub flags: u32,
    pub offset: u64,
    pub vaddr: u64,
    pub memsz: u64,
}

/// The parts of an ELF image that loading reads.
pub struct ElfImage {
    pub entry: u64,
    pub sections: Vec<SectionInfo>,
    pub segments: Vec<SegmentInfo>,
}

/// The mathematical value of an `ElfImage`.
pub struct ElfModel {
    pub entry: u64,
    pub sections: Seq<SectionModel>,
    pub segments: Seq<SegmentInfo>,
}

impl View for ElfImage {
    type V = ElfModel;

    open spec fn view(&self) -> ElfModel {
        ElfModel {
            entry: self.entry,
            sections: self.sections@.map_values(|s: SectionInfo| s@),
            segments: self.segments@,
        }
    }
}

/// Why an ELF image cannot be loaded.
#[derive(Debug, Clone, Copy, PartialEq, Eq, Structural)]
pub enum LoadError {
    /// The bytes are not an ELF image that `goblin` can parse.
    Parse,
    /// A section's name is missing from the section-name string table.
    UnnamedSection,
    /// The program's start address overflows.
    AddressOverflow,
    /// The `.text` section reaches past the end of the file.
    TextOutOfRange,
    /// The entry address lies before the program's start.
    EntryBeforeText,
    /// An instruction of the `.text` section does not decode.
    UndecodableInstruction,
    /// The program has more instructions than program memory has slots.
    ProgramTooLarge,
}

#[verifier::external_type_specification]
#[verifier::external_body]
pub struct ExGoblinError(goblin::error::Error);

/// What `goblin` parses a byte sequence into, if it is an ELF image.
pub uninterp spec fn parsed_elf(bytes: Seq<u8>) -> Option<ElfModel>;

/// Parses an ELF image with `goblin::elf::Elf::parse` and reads its entry
/// point, its section headers (each name looked up with
/// `Strtab::get_at` in the section-name string table) and its program
/// headers, one for one and in order. Claimed: the result is `parsed_elf` of
/// the bytes, an error exactly where that is `None`.
#[verifier::external_body]
fn parse_elf(buffer: &[u8]) -> (r: Result<ElfImage, goblin::error::Error>)
    ensures
        match r {
            Ok(image) => parsed_elf(buffer@) == Some(image@),
            Err(_) => parsed_elf(buffer@) is None,
        },
{
    let elf = goblin::elf::Elf::parse(buffer)?;
    let sections = elf.section_headers.iter().map(|s| SectionInfo {
        name: elf.shdr_strtab.get_at(s.sh_name).map(|n| n.to_string()),
        offset: s.sh_offset,
        size: s.sh_size,
    }).collect();
    let segments = elf.program_headers.iter().map(|p| SegmentInfo {
        p_type: p.p_type, flags: p.p_flags, offset: p.p_offset, vaddr: p.p_vaddr, memsz: p.p_memsz,
    }).collect();
    Ok(ElfImage { entry: elf.entry, sections, segments })
}

/// Whether every section has a name.
pub open spec fn sections_named(sections: Seq<SectionModel>) -> bool {
    forall|i: int| 0 <= i < sections.len() ==> (#[trigger] sections[i]).name is Some
}

/// Offset and size of the last section named `.text`, or `(0, 0)`.
pub open spec fn text_section(sections: Seq<SectionModel>) -> (u64, u64)
    decreases sections.len(),
{
    if sections.len() == 0 {
        (0, 0)
    } else if sections.last().name == Some(".text"@) {
        (sections.last().offset, sections.last().size)
    } else {
        text_section(sections.drop_last())
    }
}

/// The program-header type of a loadable segment.
pub const PT_LOAD: u32 = 1;

/// The memory region that a loadable segment describes.
pub open spec fn segment_memory(seg: SegmentInfo) -> VirtualMemory {
    VirtualMemory {
        raw_pointer: seg.vaddr as usize,
        size: seg.memsz as usize,
        offset: seg.offset as usize,
        flags: seg.flags,
    }
}

/// The memory regions of the loadable, non-empty segments, in order.
pub open spec fn loaded_segments(segments: Seq<SegmentInfo>) -> Seq<VirtualMemory>
    decreases segments.len(),
{
    if segments.len() == 0 {
        Seq::empty()
    } else {
        let seg = segments.last();
        loaded_segments(segments.drop_last()) + if seg.p_type == PT_LOAD && seg.memsz != 0 {
            seq![segment_memory(seg)]
        } else {
            Seq::<VirtualMemory>::empty()
        }
    }
}

/// Little-endian halfwords of a byte sequence; an odd last byte is dropped.
pub open spec fn halfwords_of(bytes: Seq<u8>) -> Seq<u16> {
    Seq::new(
        bytes.len() / 2,
        |i: int| (bytes[2 * i] as int + bytes[2 * i + 1] as int * 0x100) as u16,
    )
}

/// Distance between the start of the `.text` section in the file and the
/// address the program starts at.
pub const TEXT_LOAD_OFFSET: usize = 0x10000;

/// The state after loading the ELF image `m`, whose file holds `bytes`, or
/// the reason it cannot be loaded.
pub open spec fn load_result(s: MachineState, m: ElfModel, bytes: Seq<u8>) -> Result<
    MachineState,
    LoadError,
> {
    if !sections_named(m.sections) {
        Err(LoadError::UnnamedSection)
    } else {
        let off = text_section(m.sections).0 as usize;
        let size = text_section(m.sections).1 as usize;
        if off + TEXT_LOAD_OFFSET > usize::MAX {
            Err(LoadError::AddressOverflow)
        } else if off + size > bytes.len() {
            Err(LoadError::TextOutOfRange)
        } else {
            let s1 = MachineState {
                virtmems: s.virtmems + loaded_segments(m.segments),
                program_start: (off + TEXT_LOAD_OFFSET) as usize,
                entry_address: m.entry as usize,
                ..s
            };
            let raws = raw_insts(halfwords_of(bytes.subrange(off as int, off + size)), 0);
            if s1.entry_address < s1.program_start {
                Err(LoadError::EntryBeforeText)
            } else if exists|i: int| 0 <= i < raws.len() && (#[trigger] decoded_raw(raws[i])) is Err {
                Err(LoadError::UndecodableInstruction)
            } else if raws.len() > PROGRAM_SIZE {
                Err(LoadError::ProgramTooLarge)
            } else {
                Ok(with_program(s1, raws))
            }
        }
    }
}


/// Decodes every instruction of the program that `halfwords` hold,
/// returning how many there are, or the error for an instruction that does
/// not decode.
fn scan_program(halfwords: &Vec<u16>) -> (r: Result<usize, LoadError>)
    ensures
        match r {
            Ok(n) => n == raw_insts(halfwords@, 0).len() && forall|i: int|
                0 <= i < n ==> (#[trigger] decoded_raw(raw_insts(halfwords@, 0)[i])) is Ok,
            Err(e) => e == LoadError::UndecodableInstruction && exists|i: int|
                0 <= i < raw_insts(halfwords@, 0).len() && (#[trigger] decoded_raw(
                    raw_insts(halfwords@, 0)[i],
                )) is Err,
        },
{
    let ghost raws = raw_insts(halfwords@, 0);
    proof {
        lemma_raw_insts_len(halfwords@, 0);
    }
    let mut copy: Vec<u16> = Vec::new();
    for i in 0..halfwords.len()
        invariant
            copy@ == halfwords@.take(i as int),
    {
        copy.push(halfwords[i]);
        proof {
            assert(copy@ =~= halfwords@.take(i + 1));
        }
    }
    proof {
        assert(copy@ =~= halfwords@);
    }
    let mut program = Program::from(copy);
    let mut count: usize = 0;
    loop
        invariant
            raws == raw_insts(halfwords@, 0),
            raws.len() <= usize::MAX,
            count <= raws.len(),
            program@ == raws.skip(count as int),
            forall|i: int| 0 <= i < count ==> (#[trigger] decoded_raw(raws[i])) is Ok,
        ensures
            count == raws.len(),
            forall|i: int| 0 <= i < count ==> (#[trigger] decoded_raw(raws[i])) is Ok,
        decreases program@.len(),
    {
        let raw = match program.next() {
            Some(r) => r,
            None => {
                break;
            },
        };
        proof {
            assert(raws.skip(count as int)[0] == raws[count as int]);
            assert(raws.skip(count as int).drop_first() =~= raws.skip(count + 1));
        }
        if Inst::try_from(raw).is_err() {
            proof {
                assert(decoded_raw(raws[count as int]) is Err);
            }
            return Err(LoadError::UndecodableInstruction);
        }
        count = count + 1;
    }
    Ok(count)
}

impl Cpu {
    /// Loads a parsed ELF image whose file holds `buffer` (see `load_result`):
    /// records its loadable segments, sets the program's start (the `.text`
    /// section's file offset plus `TEXT_LOAD_OFFSET`) and entry address, and
    /// decodes the `.text` section into program memory. On an error nothing
    /// changes.
    pub fn load_elf_image(&mut self, image: &ElfImage, buffer: &Vec<u8>) -> (r: Result<(), LoadError>)
        ensures
            match load_result(old(self)@, image@, buffer@) {
                Ok(s) => r is Ok && final(self)@ == s,
                Err(e) => r == Err::<(), LoadError>(e) && final(self)@ == old(self)@,
            },
    {
        let ghost m = image@;
        // The `.text` section.
        let text_name = ".text".to_owned();
        let mut text_off: usize = 0;
        let mut text_size: usize = 0;
        let n_sections = image.sections.len();
        for i in 0..n_sections
            invariant
                n_sections == image.sections@.len(),
                m == image@,
                text_name@ == ".text"@,
                sections_named(m.sections.take(i as int)),
                (text_off, text_size) == (text_section(m.sections.take(i as int)).0 as usize,
                text_section(m.sections.take(i as int)).1 as usize),
        {
            proof {
                assert(m.sections.take(i + 1).drop_last() =~= m.sections.take(i as int));
                assert(m.sections[i as int] == image.sections@[i as int]@);
            }
            match &image.sections[i].name {
                None => {
                    proof {
                        assert(m.sections[i as int].name is None);
                        assert(!sections_named(m.sections));
                    }
                    return Err(LoadError::UnnamedSection);
                },
                Some(name) => {
                    if *name == text_name {
                        text_off = image.sections[i].offset as usize;
                        text_size = image.sections[i].size as usize;
                    }
                },
            }
            proof {
                assert(m.sections.take(i + 1).last() == m.sections[i as int]);
            }
        }
        proof {
            assert(m.sections.take(n_sections as int) =~= m.sections);
        }
        // The loadable segments.
        let mut segments: Vec<VirtualMemory> = Vec::new();
        let n_segments = image.segments.len();
        for i in 0..n_segments
            invariant
                n_segments == image.segments@.len(),
                m == image@,
                segments@ == loaded_segments(m.segments.take(i as int)),
        {
            proof {
                assert(m.segments.take(i + 1).drop_last() =~= m.segments.take(i as int));
            }
            let seg = image.segments[i];
            if seg.p_type == PT_LOAD && seg.memsz != 0 {
                segments.push(
                    VirtualMemory {
                        raw_pointer: seg.vaddr as usize,
                        size: seg.memsz as usize,
                        offset: seg.offset as usize,
                        flags: seg.flags,
                    },
                );
            }
            proof {
                assert(segments@ =~= loaded_segments(m.segments.take(i + 1)));
            }
        }
        proof {
            assert(m.segments.take(n_segments as int) =~= m.segments);
        }
        // The program's bytes.
        let program_start = match text_off.checked_add(TEXT_LOAD_OFFSET) {
            Some(a) => a,
            None => {
                return Err(LoadError::AddressOverflow);
            },
        };
        let buffer_len = buffer.len();
        let text_end = match text_off.checked_add(text_size) {
            Some(e) => e,
            None => {
                return Err(LoadError::TextOutOfRange);
            },
        };
        if text_end > buffer_len {
            return Err(LoadError::TextOutOfRange);
        }
        let ghost text = buffer@.subrange(text_off as int, text_end as int);
        let mut halfwords: Vec<u16> = Vec::new();
        let n_halfwords = text_size / 2;
        for i in 0..n_halfwords
            invariant
                n_halfwords == text_size / 2,
                text_end == text_off + text_size,
                text_end <= buffer.len(),
                text == buffer@.subrange(text_off as int, text_end as int),
                halfwords@ == halfwords_of(text).take(i as int),
        {
            let lo = buffer[text_off + 2 * i];
            let hi = buffer[text_off + 2 * i + 1];
            halfwords.push(lo as u16 + (hi as u16) * 0x100);
            proof {
                assert(halfwords@ =~= halfwords_of(text).take(i + 1));
            }
        }
        proof {
            assert(halfwords@ =~= halfwords_of(text));
        }
        // The program's instructions.
        let entry_address = image.entry as usize;
        if entry_address < program_start {
            return Err(LoadError::EntryBeforeText);
        }
        let ghost raws = raw_insts(halfwords@, 0);
        proof {
            lemma_raw_insts_len(halfwords@, 0);
        }
        let count = match scan_program(&halfwords) {
            Ok(n) => n,
            Err(e) => {
                return Err(e);
            },
        };
        if count > PROGRAM_SIZE {
            return Err(LoadError::ProgramTooLarge);
        }
        // Commit.
        self.virtmems.append(&mut segments);
        self.program_start = program_start;
        self.entry_address = entry_address;
        proof {
            assert(program_loadable(self@, raws));
        }
        self.set_program(Program::from(halfwords));
        Ok(())
    }

    /// Parses `buffer` as an ELF image and loads it (see `load_elf_image`).
    pub fn load_elf(&mut self, buffer: &Vec<u8>) -> (r: Result<(), LoadError>)
        ensures
            match parsed_elf(buffer@) {
                None => r == Err::<(), LoadError>(LoadError::Parse) && final(self)@ == old(self)@,
                Some(m) => match load_result(old(self)@, m, buffer@) {
                    Ok(s) => r is Ok && final(self)@ == s,
                    Err(e) => r == Err::<(), LoadError>(e) && final(self)@ == old(self)@,
                },
            },
    {
        match parse_elf(buffer.as_slice()) {
            Err(_) => Err(LoadError::Parse),
            Ok(image) => self.load_elf_image(&image, buffer),
        }
    }
}

} // verus!
