use radon_core::acpi::protocol::{mcfg_records, AcpiMcfg, MCFG_RECORD_SIZE};
use radon_core::acpi::table::{map_physical_region, phys_to_virt, AcpiHandler, VA_BASE};
use radon_core::pci::device::PciAddress;

#[test]
fn mcfg_records_roundtrip() {
    let a = AcpiMcfg { base_address: 0xb000_0000, segment_group: 0, bus_start: 0, bus_end: 0xff };
    let b = AcpiMcfg { base_address: 0xc000_0000, segment_group: 1, bus_start: 0x10, bus_end: 0x1f };
    let mut data = a.to_bytes();
    assert_eq!(data.len(), MCFG_RECORD_SIZE);
    assert_eq!(data[..12], [0, 0, 0, 0xb0, 0, 0, 0, 0, 0, 0, 0, 0xff]);
    data.extend_from_slice(&b.to_bytes());
    data.extend_from_slice(&[1, 2, 3]);
    let records = mcfg_records(&data);
    assert_eq!(records, vec![a, b]);
    assert!(mcfg_records(&[0u8; 15]).is_empty());
}

#[test]
fn physical_mappings() {
    assert_eq!(phys_to_virt(0x1234), 0x1234 + VA_BASE);
    let plan = map_physical_region(0x1_2345, 0x10);
    assert_eq!(plan.aligned_pa, 0x1_2000);
    assert_eq!(plan.offset, 0x345);
    assert_eq!(plan.aligned_size, 0x1000);
    assert_eq!(plan.va, 0x1_2345 + VA_BASE);
    assert_eq!(plan.aligned_va, 0x1_2000 + VA_BASE);
    let whole = map_physical_region(0x2000, 0x2001);
    assert_eq!(whole.aligned_size, 0x3000);
    assert_eq!(whole.offset, 0);
}

#[test]
fn handler_defaults() {
    let h = AcpiHandler;
    let address = PciAddress { segment: 0, bus: 0, device: 0, function: 0 };
    assert_eq!(h.read_io_u8(0x60), 0);
    assert_eq!(h.read_io_u16(0x60), 0);
    assert_eq!(h.read_io_u32(0x60), 0);
    assert_eq!(h.read_pci_u8(address, 0), 0);
    assert_eq!(h.read_pci_u16(address, 0), 0);
    assert_eq!(h.read_pci_u32(address, 0), 0);
    h.write_io_u8(0x60, 1);
    h.write_io_u16(0x60, 1);
    h.write_io_u32(0x60, 1);
    h.write_pci_u8(address, 0, 1);
    h.write_pci_u16(address, 0, 1);
    h.write_pci_u32(address, 0, 1);
    h.stall(10);
    h.sleep(10);
}
