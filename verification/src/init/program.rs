//! Where the segments, the stack and the entry point of a loaded program go.

use vstd::prelude::*;

verus! {

/// Address at which a position-independent program is loaded.
pub const PIE_BASE_ADDRESS: u64 = 0x0000_0001_0000_0000;

/// Errors of the program loader.
#[derive(Debug, Clone, Copy, PartialEq, Eq, Structural)]
pub enum LoaderError {
    /// The ELF image could not be parsed.
    ElfError,
    /// The program is not valid.
    InvalidProgram,
    /// Memory could not be obtained or mapped.
    OutOfMemory,
}

/// A loaded program: where to start it.
#[derive(Debug, Clone, Copy, PartialEq, Eq, Structural)]
pub struct LoadedProgram {
    /// Entry point.
    pub entry: u64,
    /// Top of its stack.
    pub stack_top: u64,
}

/// How a segment is placed in memory: the pages that cover it and where its data starts in them.
#[derive(Debug, Clone, Copy, PartialEq, Eq, Structural)]
pub struct SegmentPlacement {
    /// Address of the first page.
    pub aligned_vaddr: u64,
    /// Offset of the segment's start in its first page.
    pub offset: u64,
    /// Number of bytes of whole pages covering the segment.
    pub size: u64,
}

/// `x` rounded down to a page boundary.
pub open spec fn page_down(x: int) -> int {
    x - x % 4096
}

/// The program loader.
pub struct ProgramLoader;

impl ProgramLoader {
    /// Base address of a program: [`PIE_BASE_ADDRESS`] for a position-independent one, zero otherwise.
    pub fn base_address(is_pie: bool) -> (res: u64)
        ensures
            res == (if is_pie { PIE_BASE_ADDRESS } else { 0 }),
    {
        if is_pie {
            PIE_BASE_ADDRESS
        } else {
            0
        }
    }

    /// Placement of a segment of `memsz` bytes at `vaddr` in a program loaded at `base`: from the page of its
    /// start to the end of the page of its end.
    pub fn place_segment(base: u64, vaddr: u64, memsz: u64) -> (res: SegmentPlacement)
        requires
            base + vaddr + memsz + 4095 <= u64::MAX,
        ensures
            res.aligned_vaddr == page_down(base + vaddr),
            res.offset == (base + vaddr) % 4096,
            res.size == page_down(base + vaddr + memsz + 4095) - page_down(base + vaddr),
    {
        let v = base + vaddr;
        let end = v + memsz + 4095;
        assert(v & !4095u64 == v - v % 4096) by (bit_vector);
        assert(end & !4095u64 == end - end % 4096) by (bit_vector);
        let aligned_vaddr = v & !4095u64;
        let offset = v - aligned_vaddr;
        let size = (end & !4095u64) - aligned_vaddr;
        SegmentPlacement { aligned_vaddr, offset, size }
    }

    /// Bottom of a stack of `stack_size` bytes that ends at `stack_top`.
    pub fn stack_bottom(stack_top: u64, stack_size: u64) -> (res: u64)
        requires
            stack_size <= stack_top,
        ensures
            res == stack_top - stack_size,
    {
        stack_top - stack_size
    }

    /// The program to start: its entry point moved by the base address, and the stack top.
    pub fn loaded(base: u64, entry_point: u64, stack_top: u64) -> (res: LoadedProgram)
        requires
            base + entry_point <= u64::MAX,
        ensures
            res.entry == base + entry_point,
            res.stack_top == stack_top,
    {
        LoadedProgram { entry: base + entry_point, stack_top }
    }
}

} // verus!
