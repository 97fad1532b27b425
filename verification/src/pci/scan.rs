//! The decisions of a bus scan: what to do with a function from its identification, and which buses lie
//! behind a bridge.

use vstd::prelude::*;

verus! {

/// Vendor identifier read from a function slot that holds no function.
pub const ABSENT_VENDOR: u16 = 0xffff;

/// Layout of a configuration header, as its header type announces it.
#[derive(Debug, Clone, Copy, PartialEq, Eq, Structural)]
pub enum HeaderKind {
    /// A device.
    Endpoint,
    /// A bridge to other PCI buses.
    PciPciBridge,
    /// A CardBus bridge.
    CardBusBridge,
    /// A header type with no known layout.
    Unknown(u8),
}

/// What a scan does with a function.
#[derive(Debug, Clone, Copy, PartialEq, Eq, Structural)]
pub enum ScanAction {
    /// No function answers at this address.
    Absent,
    /// Record the device, enable its bus mastering and decoding.
    RecordEndpoint,
    /// Scan the buses behind the bridge.
    ScanBridge,
    /// Leave the function alone.
    Ignore,
}

/// What a scan does with a function of the given vendor and header kind.
pub open spec fn scan_action_spec(vendor_id: u16, header: HeaderKind) -> ScanAction {
    if vendor_id == ABSENT_VENDOR {
        ScanAction::Absent
    } else {
        match header {
            HeaderKind::Endpoint => ScanAction::RecordEndpoint,
            HeaderKind::PciPciBridge => ScanAction::ScanBridge,
            _ => ScanAction::Ignore,
        }
    }
}

/// Decides what to do with a function from its vendor identifier and header kind: a slot whose vendor is
/// `0xffff` holds nothing; an endpoint is recorded; the buses behind a PCI-to-PCI bridge are scanned; anything
/// else is left alone.
pub fn scan_action(vendor_id: u16, header: HeaderKind) -> (res: ScanAction)
    ensures
        res == scan_action_spec(vendor_id, header),
{
    if vendor_id == ABSENT_VENDOR {
        return ScanAction::Absent;
    }
    match header {
        HeaderKind::Endpoint => ScanAction::RecordEndpoint,
        HeaderKind::PciPciBridge => ScanAction::ScanBridge,
        _ => ScanAction::Ignore,
    }
}

/// The buses behind a bridge whose secondary and subordinate bus numbers are given: from the secondary to the
/// subordinate one, both included, in increasing order (none when the subordinate is below the secondary).
pub fn bridge_buses(secondary: u8, subordinate: u8) -> (res: Vec<u8>)
    ensures
        secondary <= subordinate ==> res@.len() == subordinate - secondary + 1,
        secondary > subordinate ==> res@.len() == 0,
        forall|i: int| 0 <= i < res@.len() ==> #[trigger] res@[i] == secondary + i,
{
    let mut buses: Vec<u8> = Vec::new();
    if secondary > subordinate {
        return buses;
    }
    let mut bus: u8 = secondary;
    loop
        invariant
            secondary <= bus <= subordinate,
            buses@.len() == bus - secondary,
            forall|i: int| 0 <= i < buses@.len() ==> #[trigger] buses@[i] == secondary + i,
        decreases subordinate - bus,
    {
        buses.push(bus);
        if bus == subordinate {
            return buses;
        }
        bus = bus + 1;
    }
}

} // verus!
