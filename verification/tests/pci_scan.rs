use radon_core::pci::scan::{bridge_buses, scan_action, HeaderKind, ScanAction};

#[test]
fn absent_functions_are_skipped() {
    assert_eq!(scan_action(0xffff, HeaderKind::Endpoint), ScanAction::Absent);
    assert_eq!(scan_action(0xffff, HeaderKind::PciPciBridge), ScanAction::Absent);
}

#[test]
fn functions_are_dispatched_on_their_header() {
    assert_eq!(scan_action(0x8086, HeaderKind::Endpoint), ScanAction::RecordEndpoint);
    assert_eq!(scan_action(0x8086, HeaderKind::PciPciBridge), ScanAction::ScanBridge);
    assert_eq!(scan_action(0x1b36, HeaderKind::CardBusBridge), ScanAction::Ignore);
    assert_eq!(scan_action(0x1b36, HeaderKind::Unknown(0x7f)), ScanAction::Ignore);
}

#[test]
fn buses_behind_a_bridge() {
    assert_eq!(bridge_buses(1, 3), vec![1, 2, 3]);
    assert_eq!(bridge_buses(5, 5), vec![5]);
    assert_eq!(bridge_buses(4, 2), Vec::<u8>::new());
    assert_eq!(bridge_buses(254, 255), vec![254, 255]);
    assert_eq!(bridge_buses(0, 255).len(), 256);
}
