use pci_types::device_type::DeviceType;
use radon_core::acpi::protocol::AcpiMcfg;
use radon_core::pci::access::{region_base_vaddr, region_mapping, AcpiMcfgEntry, PciAccess};
use radon_core::pci::device::{
    bar_info, device_info, enable_command, endpoint_bars, find_pci_device_by_class_code,
    find_pci_device_by_vendor_device, open_response, select_devices, PciAddress, PciBar, PciDevice,
};
use radon_core::pci::protocol::{
    device_infos_from_bytes, BarInfo, PciDeviceInfo, PciGetDeviceInfoRequest, BAR_TYPE_IO, BAR_TYPE_MMIO,
    DEVICE_INFO_SIZE, REQUEST_SIZE,
};

fn device(class: u8, vendor: u16, dev: u16, bars: [Option<PciBar>; 6]) -> PciDevice {
    PciDevice::new(PciAddress { segment: 0, bus: 0, device: 1, function: 0 }, class, 8, 2, vendor, dev, 0x1af4, 0x1100, 1, bars)
}

fn request(class: u8, vendor: u16, dev: u16) -> Vec<u8> {
    PciGetDeviceInfoRequest {
        class,
        subclass: 8,
        interface: 2,
        vendor,
        device: dev,
        subsystem_vendor: 0,
        subsystem_device: 0,
    }
    .to_bytes()
}

#[test]
fn request_roundtrip() {
    let r = PciGetDeviceInfoRequest {
        class: 1,
        subclass: 8,
        interface: 2,
        vendor: 0x8086,
        device: 0x2922,
        subsystem_vendor: 3,
        subsystem_device: 4,
    };
    let bytes = r.to_bytes();
    assert_eq!(bytes.len(), REQUEST_SIZE);
    assert_eq!(bytes, vec![1, 8, 2, 0, 0x86, 0x80, 0x22, 0x29, 3, 0, 4, 0]);
    assert_eq!(PciGetDeviceInfoRequest::from_bytes(&bytes), r);
}

#[test]
fn bar_descriptions() {
    assert_eq!(bar_info(PciBar::Io { port: 0xc000 }), BarInfo { address: 0xc000, size: 0, bar_type: BAR_TYPE_IO });
    assert_eq!(
        bar_info(PciBar::Memory32 { address: 0xfebf_0000, size: 0x1000, prefetchable: false }),
        BarInfo { address: 0xfebf_0000, size: 0x1000, bar_type: BAR_TYPE_MMIO }
    );
    assert_eq!(
        bar_info(PciBar::Memory64 { address: 0x8_0000_0000, size: 0x1_0000_4000, prefetchable: true }),
        BarInfo { address: 0x8_0000_0000, size: 0x4000, bar_type: BAR_TYPE_MMIO }
    );
    let bytes = BarInfo { address: 0x1234, size: 16, bar_type: BAR_TYPE_MMIO }.to_bytes();
    assert_eq!(bytes, vec![0x34, 0x12, 0, 0, 0, 0, 0, 0, 16, 0, 0, 0, 2, 0, 0, 0]);
}

#[test]
fn device_descriptions() {
    let d = device(1, 0x1b36, 0x0010, [Some(PciBar::Memory64 { address: 0xfe00_0000, size: 0x4000, prefetchable: false }), None, Some(PciBar::Io { port: 0x60 }), None, None, None]);
    let info = device_info(&d);
    assert_eq!(info.vendor, 0x1b36);
    assert_eq!(info.bars[0], BarInfo { address: 0xfe00_0000, size: 0x4000, bar_type: BAR_TYPE_MMIO });
    assert_eq!(info.bars[1], BarInfo::zeroed());
    assert_eq!(info.bars[2].bar_type, BAR_TYPE_IO);
    let bytes = info.to_bytes();
    assert_eq!(bytes.len(), DEVICE_INFO_SIZE);
    let back = PciDeviceInfo::from_bytes(&bytes);
    assert_eq!(back.bars, info.bars);
    assert_eq!(back.vendor, 0x1b36);
    assert_eq!(back.device, 0x0010);
    assert_eq!(back.subsystem_vendor, 0x1af4);
    assert_eq!(back.revision, 1);
}

#[test]
fn device_queries() {
    let devices = vec![
        device(1, 0x8086, 0x2922, [None; 6]),
        device(2, 0x1b36, 0x0010, [None; 6]),
        device(1, 0x1b36, 0x0011, [None; 6]),
    ];
    let by_class = find_pci_device_by_class_code(&devices, 1, 8, 2);
    assert_eq!(by_class.len(), 2);
    assert_eq!(by_class[1].device_id, 0x0011);
    let by_ids = find_pci_device_by_vendor_device(&devices, 0x1b36, 0x0010);
    assert_eq!(by_ids.len(), 1);
    assert_eq!(by_ids[0].class, 2);

    assert_eq!(select_devices(&devices, &request(1, 0, 0)).len(), 2);
    let fallback = select_devices(&devices, &request(9, 0x1b36, 0x0010));
    assert_eq!(fallback.len(), 1);
    assert_eq!(fallback[0].device_id, 0x0010);
    assert!(select_devices(&devices, &request(9, 0, 0)).is_empty());

    let response = open_response(&devices, &request(1, 0, 0));
    assert_eq!(response.len(), 2 * DEVICE_INFO_SIZE);
    assert_eq!(PciDeviceInfo::from_bytes(&response[DEVICE_INFO_SIZE..]).device, 0x0011);
}

#[test]
fn endpoint_bar_slots() {
    let bars = endpoint_bars(|i| match i {
        0 => Some(PciBar::Memory64 { address: 0x1000, size: 0x100, prefetchable: false }),
        1 => Some(PciBar::Io { port: 1 }),
        2 => Some(PciBar::Io { port: 2 }),
        _ => None,
    });
    assert!(matches!(bars[0], Some(PciBar::Memory64 { .. })));
    assert!(bars[1].is_none());
    assert_eq!(bars[2], Some(PciBar::Io { port: 2 }));
    assert!(bars[3].is_none());
    assert_eq!(enable_command(0x0400), 0x0407);
}

#[test]
fn ecam_addresses() {
    let mcfg = AcpiMcfg { base_address: 0xb000_0800, segment_group: 0, bus_start: 0, bus_end: 0x3f };
    let mapping = region_mapping(mcfg);
    assert_eq!(mapping.aligned_base, 0xb000_0000);
    assert_eq!(mapping.size, 64 << 20);
    let base = region_base_vaddr(0x7000_0000, mcfg);
    assert_eq!(base, 0x7000_0800);

    let access = PciAccess::new(vec![
        AcpiMcfgEntry::new(AcpiMcfg { base_address: 0, segment_group: 1, bus_start: 0, bus_end: 255 }, 0x1000_0000),
        AcpiMcfgEntry::new(mcfg, base),
    ]);
    let addr = PciAddress { segment: 0, bus: 2, device: 3, function: 1 };
    assert_eq!(access.mmio_address(addr), Some(0x7000_0800 + (2 << 20) + (3 << 15) + (1 << 12)));
    let outside = PciAddress { segment: 0, bus: 0x40, device: 0, function: 0 };
    assert_eq!(access.mmio_address(outside), None);
    let other_segment = PciAddress { segment: 1, bus: 0, device: 31, function: 7 };
    assert_eq!(access.mmio_address(other_segment), Some(0x1000_0000 + (31 << 15) + (7 << 12)));
}

#[test]
fn device_descriptions_of_an_answer() {
    let devices = vec![device(1, 0x8086, 0x2922, [None; 6]), device(1, 0x1b36, 0x0011, [None; 6])];
    let mut response = open_response(&devices, &request(1, 0, 0));
    response.extend_from_slice(&[1, 2, 3, 4, 5]);
    let infos = device_infos_from_bytes(&response);
    assert_eq!(infos.len(), 2);
    assert_eq!(infos[0].vendor, 0x8086);
    assert_eq!(infos[0].device, 0x2922);
    assert_eq!(infos[1].device, 0x0011);
    assert!(device_infos_from_bytes(&response[..DEVICE_INFO_SIZE - 1]).is_empty());
}

#[test]
fn devices_are_classified_by_class_and_sub_class() {
    let nvme = device(0x01, 0x8086, 0xf1a5, [None; 6]);
    assert_eq!(nvme.device_type, DeviceType::NvmeController);
    assert_eq!(nvme.class, 0x01);
    assert_eq!(nvme.sub_class, 8);
    let sata = PciDevice::new(PciAddress { segment: 0, bus: 2, device: 3, function: 0 }, 0x01, 0x06, 1, 0x8086, 0x2922, 0, 0, 2, [None; 6]);
    assert_eq!(sata.device_type, DeviceType::SataController);
    let bridge = PciDevice::new(PciAddress { segment: 0, bus: 0, device: 4, function: 0 }, 0x06, 0x04, 0, 0x1b36, 0x000c, 0, 0, 0, [None; 6]);
    assert_eq!(bridge.device_type, DeviceType::PciPciBridge);
}
