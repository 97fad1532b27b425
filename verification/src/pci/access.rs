//! Where the configuration space of each PCI function is mapped (ECAM).

use vstd::prelude::*;

use crate::acpi::protocol::AcpiMcfg;
use crate::pci::device::PciAddress;

verus! {

/// A configuration space region of the MCFG table and the virtual address where it is mapped.
#[derive(Debug, Clone, Copy, PartialEq, Eq, Structural)]
pub struct AcpiMcfgEntry {
    /// The region.
    pub mcfg_entry: AcpiMcfg,
    /// Virtual address of the region's first byte.
    pub base_vaddr: usize,
}

impl AcpiMcfgEntry {
    /// A region mapped at `base_vaddr`.
    pub fn new(mcfg_entry: AcpiMcfg, base_vaddr: usize) -> (res: Self)
        ensures
            res.mcfg_entry == mcfg_entry,
            res.base_vaddr == base_vaddr,
    {
        AcpiMcfgEntry { mcfg_entry, base_vaddr }
    }
}

/// Whether the region covers the function at `address`.
pub open spec fn covers(e: AcpiMcfgEntry, address: PciAddress) -> bool {
    e.mcfg_entry.segment_group == address.segment && e.mcfg_entry.bus_start <= address.bus
        && address.bus <= e.mcfg_entry.bus_end
}

/// Offset of a function's configuration space in a region that starts at bus `bus_start`: 1 MiB per bus,
/// 32 KiB per device, 4 KiB per function.
pub open spec fn ecam_offset(address: PciAddress, bus_start: u8) -> int {
    (address.bus - bus_start) * 0x10_0000 + address.device * 0x8000 + address.function * 0x1000
}

/// Access to the configuration space through the mapped regions.
pub struct PciAccess {
    /// The mapped regions, searched in order.
    pub entries: Vec<AcpiMcfgEntry>,
}

impl PciAccess {
    /// Access through the given regions.
    pub fn new(entries: Vec<AcpiMcfgEntry>) -> (res: Self)
        ensures
            res.entries@ == entries@,
    {
        PciAccess { entries }
    }

    /// Whether every region's mapping leaves room for the 256 MiB a region can span.
    pub open spec fn wf(&self) -> bool {
        forall|i: int| 0 <= i < self.entries@.len() ==> #[trigger] self.entries@[i].base_vaddr + 0x1000_0000 <= usize::MAX
    }

    /// Virtual address of the configuration space of the function at `address`, in the first region that
    /// covers it; `None` when no region does.
    pub fn mmio_address(&self, address: PciAddress) -> (res: Option<usize>)
        requires
            self.wf(),
            address.wf(),
        ensures
            (forall|i: int| 0 <= i < self.entries@.len() ==> !covers(#[trigger] self.entries@[i], address)) ==> res is None,
            forall|i: int|
                0 <= i < self.entries@.len() && covers(#[trigger] self.entries@[i], address) && (forall|j: int|
                    0 <= j < i ==> !covers(#[trigger] self.entries@[j], address)) ==> res == Some(
                    (self.entries@[i].base_vaddr + ecam_offset(address, self.entries@[i].mcfg_entry.bus_start)) as usize,
                ),
    {
        let mut i: usize = 0;
        while i < self.entries.len()
            invariant
                i <= self.entries@.len(),
                self.wf(),
                address.wf(),
                forall|j: int| 0 <= j < i ==> !covers(#[trigger] self.entries@[j], address),
            decreases self.entries@.len() - i,
        {
            let e = self.entries[i];
            if e.mcfg_entry.segment_group == address.segment && e.mcfg_entry.bus_start <= address.bus
                && address.bus <= e.mcfg_entry.bus_end {
                let bus = (address.bus - e.mcfg_entry.bus_start) as usize;
                let device = address.device as usize;
                let function = address.function as usize;
                assert(bus < 256 && device < 32 && function < 8 ==> (bus << 20usize) | (device << 15usize) | (
                function << 12usize) == bus * 0x10_0000 + device * 0x8000 + function * 0x1000) by (bit_vector);
                let offset = (bus << 20) | (device << 15) | (function << 12);
                assert(self.entries@[i as int].base_vaddr + 0x1000_0000 <= usize::MAX);
                return Some(e.base_vaddr + offset);
            }
            i = i + 1;
        }
        None
    }
}

/// How an MCFG region is mapped: from its base rounded down to a page, one MiB per bus.
#[derive(Debug, Clone, Copy, PartialEq, Eq, Structural)]
pub struct RegionMapping {
    /// Base address rounded down to a page.
    pub aligned_base: u64,
    /// Number of bytes to map.
    pub size: usize,
}

/// The mapping of a region whose buses are `bus_start..=bus_end`.
pub fn region_mapping(mcfg: AcpiMcfg) -> (res: RegionMapping)
    requires
        mcfg.bus_start <= mcfg.bus_end,
    ensures
        res.aligned_base == mcfg.base_address - mcfg.base_address % 4096,
        res.size == (mcfg.bus_end - mcfg.bus_start + 1) * 0x10_0000,
{
    let base = mcfg.base_address;
    assert(base & !4095u64 == base - base % 4096) by (bit_vector);
    let aligned_base = base & !4095u64;
    let bus_count = mcfg.bus_end as usize - mcfg.bus_start as usize + 1;
    assert(bus_count <= 256);
    assert(bus_count * 0x10_0000 <= 0x1000_0000) by (nonlinear_arith)
        requires
            bus_count <= 256,
    ;
    RegionMapping { aligned_base, size: bus_count * 0x10_0000 }
}

/// Virtual address of a region's first byte, given where its first page was mapped.
pub fn region_base_vaddr(vaddr: usize, mcfg: AcpiMcfg) -> (res: usize)
    requires
        vaddr + mcfg.base_address % 4096 <= usize::MAX,
    ensures
        res == vaddr + mcfg.base_address % 4096,
{
    let base = mcfg.base_address;
    assert(base & !4095u64 == base - base % 4096) by (bit_vector);
    let aligned = base & !4095u64;
    vaddr + (base - aligned) as usize
}

} // verus!
