//! The handler through which the ACPI tables are read: where physical memory appears in the service's
//! address space, and what the port and PCI accessors answer.

use vstd::prelude::*;

use crate::pci::device::PciAddress;

verus! {

/// Virtual address at which physical address zero is mapped.
pub const VA_BASE: usize = 0x4000_0000;

/// Size of a page.
pub const PAGE_SIZE: usize = 4096;

/// Virtual address of a physical address.
pub fn phys_to_virt(phys: usize) -> (res: usize)
    requires
        phys + VA_BASE <= usize::MAX,
    ensures
        res == phys + VA_BASE,
{
    phys + VA_BASE
}

/// How a physical region is mapped: the pages that cover it, and where it appears.
#[derive(Debug, Clone, Copy, PartialEq, Eq, Structural)]
pub struct MappingPlan {
    /// First page of the region.
    pub aligned_pa: usize,
    /// Length of the region rounded up to whole pages.
    pub aligned_size: usize,
    /// Offset of the region in its first page.
    pub offset: usize,
    /// Virtual address of the region.
    pub va: usize,
    /// Virtual address of its first page.
    pub aligned_va: usize,
}

/// `x` rounded down to a page boundary.
pub open spec fn page_floor(x: int) -> int {
    x - x % 4096
}

/// Plans the mapping of `size` bytes at physical address `pa`: the covering pages start at `pa` rounded
/// down, the mapped length is `size` rounded up to whole pages, and the region appears at
/// `pa + VA_BASE`.
pub fn map_physical_region(pa: usize, size: usize) -> (res: MappingPlan)
    requires
        pa + VA_BASE <= usize::MAX,
        size + 4095 <= usize::MAX,
    ensures
        res.aligned_pa == page_floor(pa as int),
        res.aligned_size == page_floor(size + 4095),
        res.offset == pa % 4096,
        res.va == pa + VA_BASE,
        res.aligned_va == page_floor(pa + VA_BASE),
{
    let s: usize = size + 4095;
    assert(pa & !4095usize == pa - pa % 4096) by (bit_vector);
    assert(s & !4095usize == s - s % 4096) by (bit_vector);
    let aligned_pa = pa & !4095usize;
    let aligned_size = s & !4095usize;
    let offset = pa - aligned_pa;
    let va = phys_to_virt(pa);
    assert(va & !4095usize == va - va % 4096) by (bit_vector);
    let aligned_va = va & !4095usize;
    MappingPlan { aligned_pa, aligned_size, offset, va, aligned_va }
}

/// The handler of the ACPI tables: the port and PCI configuration accessors are not provided, reads give
/// zero and writes do nothing.
#[derive(Debug, Clone, Copy)]
pub struct AcpiHandler;

impl AcpiHandler {
    /// Reading an I/O port gives zero.
    pub fn read_io_u8(&self, port: u16) -> (res: u8)
        ensures
            res == 0,
    {
        0
    }

    /// Reading an I/O port gives zero.
    pub fn read_io_u16(&self, port: u16) -> (res: u16)
        ensures
            res == 0,
    {
        0
    }

    /// Reading an I/O port gives zero.
    pub fn read_io_u32(&self, port: u16) -> (res: u32)
        ensures
            res == 0,
    {
        0
    }

    /// Writing an I/O port does nothing.
    pub fn write_io_u8(&self, port: u16, value: u8) {
    }

    /// Writing an I/O port does nothing.
    pub fn write_io_u16(&self, port: u16, value: u16) {
    }

    /// Writing an I/O port does nothing.
    pub fn write_io_u32(&self, port: u16, value: u32) {
    }

    /// Reading PCI configuration space gives zero.
    pub fn read_pci_u8(&self, address: PciAddress, offset: u16) -> (res: u8)
        ensures
            res == 0,
    {
        0
    }

    /// Reading PCI configuration space gives zero.
    pub fn read_pci_u16(&self, address: PciAddress, offset: u16) -> (res: u16)
        ensures
            res == 0,
    {
        0
    }

    /// Reading PCI configuration space gives zero.
    pub fn read_pci_u32(&self, address: PciAddress, offset: u16) -> (res: u32)
        ensures
            res == 0,
    {
        0
    }

    /// Writing PCI configuration space does nothing.
    pub fn write_pci_u8(&self, address: PciAddress, offset: u16, value: u8) {
    }

    /// Writing PCI configuration space does nothing.
    pub fn write_pci_u16(&self, address: PciAddress, offset: u16, value: u16) {
    }

    /// Writing PCI configuration space does nothing.
    pub fn write_pci_u32(&self, address: PciAddress, offset: u16, value: u32) {
    }

    /// Stalling returns at once.
    pub fn stall(&self, microseconds: u64) {
    }

    /// Sleeping returns at once.
    pub fn sleep(&self, milliseconds: u64) {
    }
}

} // verus!
