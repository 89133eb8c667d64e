use vstd::prelude::*;

verus! {

/// One loadable segment of an ELF image: where it lives in the emulated
/// address space, how large it is, where its bytes start in the file, and its
/// permission flags.
#[derive(Debug, Clone, Copy, PartialEq, Eq, Structural)]
pub struct VirtualMemory {
    /// The segment's virtual address.
    pub raw_pointer: usize,
    pub size: usize,
    /// The segment's offset in the ELF file.
    pub offset: usize,
    pub flags: u32,
}

impl Default for VirtualMemory {
    fn default() -> (r: VirtualMemory)
        ensures
            r == (VirtualMemory { raw_pointer: 0, size: 0, offset: 0, flags: 0 }),
    {
        VirtualMemory { raw_pointer: 0, size: 0, offset: 0, flags: 0 }
    }
}

/// Size of the pages that segments are mapped in.
pub const PAGE_SIZE: u32 = 4096;

/// The address range that backs a segment: the page-aligned start at or
/// below its address (as a 32-bit address), and the length that reaches from
/// there to the segment's end; `None` where that length does not fit in 32
/// bits.
pub open spec fn spec_mapping(vm: VirtualMemory) -> Option<(u32, u32)> {
    let addr = vm.raw_pointer as u32;
    let aligned = (addr / PAGE_SIZE) * PAGE_SIZE;
    let len = (vm.size as u32) as int + (addr - aligned);
    if len > u32::MAX {
        None
    } else {
        Some((aligned as u32, len as u32))
    }
}

/// How many bytes of the file are copied into a segment: its size, but never
/// more than the file holds from the segment's offset on.
pub open spec fn spec_copy_len(vm: VirtualMemory, file_len: usize) -> usize {
    if vm.offset >= file_len {
        0
    } else if vm.size <= file_len - vm.offset {
        vm.size
    } else {
        (file_len - vm.offset) as usize
    }
}

/// The mapping of a segment starts on a page boundary no more than a page
/// below the segment's (32-bit) address and ends exactly where the segment
/// ends; there is none only where that end lies beyond the 32-bit address
/// space.
pub proof fn law_mapping_covers_segment(vm: VirtualMemory)
    ensures
        ({
            let addr = vm.raw_pointer as u32;
            let size = vm.size as u32;
            &&& spec_mapping(vm) matches Some((start, len)) ==> {
                &&& start % PAGE_SIZE == 0
                &&& start <= addr < start + PAGE_SIZE
                &&& start + len == addr + size
            }
            &&& spec_mapping(vm) is None <==> addr % PAGE_SIZE + size > u32::MAX
        }),
{
}

impl VirtualMemory {
    /// The page-aligned start address and length of the mapping that backs
    /// this segment, or `None` if the length overflows 32 bits.
    pub fn mapping(&self) -> (r: Option<(u32, u32)>)
        ensures
            r == spec_mapping(*self),
    {
        let addr = self.raw_pointer as u32;
        let aligned = (addr / PAGE_SIZE) * PAGE_SIZE;
        let aligned_diff = addr - aligned;
        let size = self.size as u32;
        if size > u32::MAX - aligned_diff {
            None
        } else {
            Some((aligned, size + aligned_diff))
        }
    }

    /// How many bytes of a file of `file_len` bytes are copied into this
    /// segment.
    pub fn copy_len(&self, file_len: usize) -> (r: usize)
        ensures
            r == spec_copy_len(*self, file_len),
            r <= self.size,
            r > 0 ==> self.offset + r <= file_len,
    {
        if self.offset >= file_len {
            0
        } else if self.size <= file_len - self.offset {
            self.size
        } else {
            file_len - self.offset
        }
    }
}

} // verus!
