//! The devices found on the PCI buses, the queries on them, and the descriptions sent to clients.

use vstd::prelude::*;

use crate::pci::protocol::{
    device_info_bytes, request_of_bytes, BarInfo, PciDeviceInfo, PciGetDeviceInfoRequest, BAR_TYPE_IO,
    BAR_TYPE_MMIO, REQUEST_SIZE,
};

verus! {

/// The classification of a function by `pci_types`, from its base class and sub-class.
#[verifier::external_type_specification]
#[verifier::external_body]
pub struct ExDeviceType(pci_types::device_type::DeviceType);

/// The device type `pci_types` gives to a base class and sub-class (a table of the PCI classes).
pub uninterp spec fn pci_device_type(class: u8, sub_class: u8) -> pci_types::device_type::DeviceType;

/// Classifies a function from its base class and sub-class with `pci_types`'s `DeviceType::from`; its result
/// depends on those two bytes alone.
#[verifier::external_body]
pub(crate) fn classify(class: u8, sub_class: u8) -> (res: pci_types::device_type::DeviceType)
    ensures
        res == pci_device_type(class, sub_class),
{
    pci_types::device_type::DeviceType::from((class, sub_class))
}

/// Location of a PCI function: segment group, bus, device (below 32) and function (below 8).
#[derive(Debug, Clone, Copy, PartialEq, Eq, Structural)]
pub struct PciAddress {
    pub segment: u16,
    pub bus: u8,
    pub device: u8,
    pub function: u8,
}

impl PciAddress {
    /// Whether the device and function numbers are in range.
    pub open spec fn wf(&self) -> bool {
        self.device < 32 && self.function < 8
    }
}

/// A base address register as read from a device.
#[derive(Debug, Clone, Copy, PartialEq, Eq, Structural)]
pub enum PciBar {
    /// A 32-bit memory region.
    Memory32 { address: u32, size: u32, prefetchable: bool },
    /// A 64-bit memory region, which takes two BAR slots.
    Memory64 { address: u64, size: u64, prefetchable: bool },
    /// An I/O port.
    Io { port: u32 },
}

/// A PCI function found on a bus.
#[derive(Debug, Clone, Copy)]
pub struct PciDevice {
    pub address: PciAddress,
    pub class: u8,
    pub sub_class: u8,
    pub interface: u8,
    pub vendor_id: u16,
    pub device_id: u16,
    pub subsystem_vendor_id: u16,
    pub subsystem_device_id: u16,
    pub revision: u8,
    pub device_type: pci_types::device_type::DeviceType,
    pub bars: [Option<PciBar>; 6],
}

impl PciDevice {
    /// Describes a function from what its configuration header holds, classifying it by its base class and
    /// sub-class.
    pub fn new(
        address: PciAddress,
        class: u8,
        sub_class: u8,
        interface: u8,
        vendor_id: u16,
        device_id: u16,
        subsystem_vendor_id: u16,
        subsystem_device_id: u16,
        revision: u8,
        bars: [Option<PciBar>; 6],
    ) -> (res: Self)
        ensures
            res.address == address,
            res.class == class,
            res.sub_class == sub_class,
            res.interface == interface,
            res.vendor_id == vendor_id,
            res.device_id == device_id,
            res.subsystem_vendor_id == subsystem_vendor_id,
            res.subsystem_device_id == subsystem_device_id,
            res.revision == revision,
            res.device_type == pci_device_type(class, sub_class),
            res.bars == bars,
    {
        PciDevice {
            address,
            class,
            sub_class,
            interface,
            vendor_id,
            device_id,
            subsystem_vendor_id,
            subsystem_device_id,
            revision,
            device_type: classify(class, sub_class),
            bars,
        }
    }
}

/// Whether BAR slot `i` is skipped because the slot before it holds a 64-bit BAR.
pub open spec fn bar_slot_skipped(bars: Seq<Option<PciBar>>, i: int) -> bool {
    i > 0 && bars[i - 1] matches Some(PciBar::Memory64 { .. })
}

/// Reads the six BAR slots of an endpoint with `read_bar`: a slot that follows a 64-bit BAR is not read
/// and stays empty, every other slot holds what `read_bar` gave for it.
pub fn endpoint_bars<F: Fn(u8) -> Option<PciBar>>(read_bar: F) -> (res: [Option<PciBar>; 6])
    requires
        forall|i: u8| i < 6 ==> call_requires(read_bar, (i,)),
    ensures
        forall|i: int| 0 <= i < 6 && bar_slot_skipped(res@, i) ==> res@[i] is None,
        forall|i: int| 0 <= i < 6 && !bar_slot_skipped(res@, i) ==> call_ensures(read_bar, (i as u8,), res@[i]),
{
    let mut bars: [Option<PciBar>; 6] = [None; 6];
    let mut skip_next = false;
    let mut index: usize = 0;
    while index < 6
        invariant
            index <= 6,
            forall|i: u8| i < 6 ==> call_requires(read_bar, (i,)),
            forall|i: int| 0 <= i < index && bar_slot_skipped(bars@, i) ==> bars@[i] is None,
            forall|i: int| 0 <= i < index && !bar_slot_skipped(bars@, i) ==> call_ensures(read_bar, (i as u8,), bars@[i]),
            forall|i: int| index <= i < 6 ==> bars@[i] is None,
            skip_next == (index > 0 && bars@[index - 1] matches Some(PciBar::Memory64 { .. })),
        decreases 6 - index,
    {
        let ghost before = bars@;
        if skip_next {
            skip_next = false;
            assert(bar_slot_skipped(bars@, index as int));
        } else {
            let bar = read_bar(index as u8);
            if let Some(PciBar::Memory64 { .. }) = bar {
                skip_next = true;
            }
            bars[index] = bar;
            proof {
                assert(forall|i: int| 0 <= i < 6 && i != index ==> bars@[i] == before[i]);
                assert(bars@[index as int] == bar);
                assert(!bar_slot_skipped(bars@, index as int));
                assert forall|i: int| 0 <= i < index + 1 && !bar_slot_skipped(bars@, i) implies call_ensures(
                    read_bar,
                    (i as u8,),
                    bars@[i],
                ) by {
                    if i < index {
                        assert(bars@[i] == before[i]);
                        assert(bar_slot_skipped(bars@, i) == bar_slot_skipped(before, i));
                    }
                }
                assert forall|i: int| 0 <= i < index + 1 && bar_slot_skipped(bars@, i) implies bars@[i] is None by {
                    if i < index {
                        assert(bars@[i] == before[i]);
                        assert(bar_slot_skipped(bars@, i) == bar_slot_skipped(before, i));
                    }
                }
            }
        }
        index = index + 1;
    }
    bars
}

/// The description of a BAR: a port with size zero, or the address and size of a memory region (the size
/// kept on 32 bits).
pub open spec fn bar_info_of(bar: PciBar) -> BarInfo {
    match bar {
        PciBar::Io { port } => BarInfo { address: port as u64, size: 0, bar_type: BAR_TYPE_IO },
        PciBar::Memory32 { address, size, .. } => BarInfo {
            address: address as u64,
            size: size,
            bar_type: BAR_TYPE_MMIO,
        },
        PciBar::Memory64 { address, size, .. } => BarInfo {
            address: address,
            size: size as u32,
            bar_type: BAR_TYPE_MMIO,
        },
    }
}

/// A 64-bit BAR's address and size fit in a machine word.
pub open spec fn bar_fits_usize(bar: PciBar) -> bool {
    bar matches PciBar::Memory64 { address, size, .. } ==> address <= usize::MAX && size <= usize::MAX
}

/// The description of a BAR.
pub fn bar_info(bar: PciBar) -> (res: BarInfo)
    requires
        bar_fits_usize(bar),
    ensures
        res == bar_info_of(bar),
{
    match bar {
        PciBar::Io { port } => BarInfo { address: port as u64, size: 0, bar_type: BAR_TYPE_IO },
        PciBar::Memory32 { address, size, .. } => BarInfo {
            address: address as u64,
            size: size,
            bar_type: BAR_TYPE_MMIO,
        },
        PciBar::Memory64 { address, size, .. } => {
            let a = address as usize;
            let s = size as usize;
            BarInfo { address: a as u64, size: s as u32, bar_type: BAR_TYPE_MMIO }
        },
    }
}

/// Whether every BAR of the device fits in a machine word.
pub open spec fn device_bars_fit(d: PciDevice) -> bool {
    forall|i: int| 0 <= i < 6 ==> (#[trigger] d.bars@[i] matches Some(b) ==> bar_fits_usize(b))
}

/// Whether `info` describes `d`: same identifiers, and each BAR described (or zero when absent).
pub open spec fn describes(info: PciDeviceInfo, d: PciDevice) -> bool {
    &&& info.class == d.class
    &&& info.subclass == d.sub_class
    &&& info.interface == d.interface
    &&& info.vendor == d.vendor_id
    &&& info.device == d.device_id
    &&& info.subsystem_vendor == d.subsystem_vendor_id
    &&& info.subsystem_device == d.subsystem_device_id
    &&& info.revision == d.revision
    &&& forall|i: int|
        0 <= i < 6 ==> #[trigger] info.bars@[i] == match d.bars@[i] {
            Some(b) => bar_info_of(b),
            None => BarInfo { address: 0, size: 0, bar_type: 0 },
        }
}

/// The description of a device that a client receives.
pub fn device_info(device: &PciDevice) -> (res: PciDeviceInfo)
    requires
        device_bars_fit(*device),
    ensures
        describes(res, *device),
{
    let mut bars = [BarInfo::zeroed(); 6];
    let mut idx: usize = 0;
    while idx < 6
        invariant
            idx <= 6,
            device_bars_fit(*device),
            forall|i: int|
                0 <= i < idx ==> #[trigger] bars@[i] == match device.bars@[i] {
                    Some(b) => bar_info_of(b),
                    None => BarInfo { address: 0, size: 0, bar_type: 0 },
                },
            forall|i: int| idx <= i < 6 ==> bars@[i] == (BarInfo { address: 0, size: 0, bar_type: 0 }),
        decreases 6 - idx,
    {
        let ghost before = bars@;
        match device.bars[idx] {
            Some(bar) => {
                assert(device.bars@[idx as int] matches Some(b) ==> bar_fits_usize(b));
                bars[idx] = bar_info(bar);
            },
            None => {},
        }
        assert(forall|i: int| 0 <= i < 6 && i != idx ==> bars@[i] == before[i]);
        idx = idx + 1;
    }
    PciDeviceInfo {
        bars,
        class: device.class,
        subclass: device.sub_class,
        interface: device.interface,
        vendor: device.vendor_id,
        device: device.device_id,
        subsystem_vendor: device.subsystem_vendor_id,
        subsystem_device: device.subsystem_device_id,
        revision: device.revision,
    }
}

/// Whether a device has the given class, subclass and interface.
pub open spec fn has_class(d: PciDevice, class: u8, subclass: u8, interface: u8) -> bool {
    d.class == class && d.sub_class == subclass && d.interface == interface
}

/// Whether a device has the given vendor and device identifiers.
pub open spec fn has_ids(d: PciDevice, vendor_id: u16, device_id: u16) -> bool {
    d.vendor_id == vendor_id && d.device_id == device_id
}

/// The devices of `devices` with the given class, subclass and interface, in order.
pub fn find_pci_device_by_class_code(devices: &[PciDevice], class: u8, subclass: u8, interface: u8) -> (res: Vec<
    PciDevice,
>)
    ensures
        res@ == devices@.filter(|d: PciDevice| has_class(d, class, subclass, interface)),
{
    let mut out: Vec<PciDevice> = Vec::new();
    let mut i: usize = 0;
    while i < devices.len()
        invariant
            i <= devices@.len(),
            out@ == devices@.subrange(0, i as int).filter(|d: PciDevice| has_class(d, class, subclass, interface)),
        decreases devices@.len() - i,
    {
        let d = devices[i];
        proof {
            let sub = devices@.subrange(0, i + 1);
            assert(sub.drop_last() =~= devices@.subrange(0, i as int));
            devices@.subrange(0, i as int).lemma_filter_push(d, |d: PciDevice| has_class(d, class, subclass, interface));
            assert(sub =~= devices@.subrange(0, i as int).push(d));
        }
        if d.class == class && d.sub_class == subclass && d.interface == interface {
            out.push(d);
        }
        i = i + 1;
    }
    assert(devices@.subrange(0, devices@.len() as int) =~= devices@);
    out
}

/// The devices of `devices` with the given vendor and device identifiers, in order.
pub fn find_pci_device_by_vendor_device(devices: &[PciDevice], vendor_id: u16, device_id: u16) -> (res: Vec<
    PciDevice,
>)
    ensures
        res@ == devices@.filter(|d: PciDevice| has_ids(d, vendor_id, device_id)),
{
    let mut out: Vec<PciDevice> = Vec::new();
    let mut i: usize = 0;
    while i < devices.len()
        invariant
            i <= devices@.len(),
            out@ == devices@.subrange(0, i as int).filter(|d: PciDevice| has_ids(d, vendor_id, device_id)),
        decreases devices@.len() - i,
    {
        let d = devices[i];
        proof {
            let sub = devices@.subrange(0, i + 1);
            devices@.subrange(0, i as int).lemma_filter_push(d, |d: PciDevice| has_ids(d, vendor_id, device_id));
            assert(sub =~= devices@.subrange(0, i as int).push(d));
        }
        if d.vendor_id == vendor_id && d.device_id == device_id {
            out.push(d);
        }
        i = i + 1;
    }
    assert(devices@.subrange(0, devices@.len() as int) =~= devices@);
    out
}

/// The devices that answer a request: those of the requested class, or when there are none, those with the
/// requested vendor and device identifiers.
pub open spec fn selected_devices(devices: Seq<PciDevice>, r: PciGetDeviceInfoRequest) -> Seq<PciDevice> {
    let by_class = devices.filter(|d: PciDevice| has_class(d, r.class, r.subclass, r.interface));
    if by_class.len() > 0 {
        by_class
    } else {
        devices.filter(|d: PciDevice| has_ids(d, r.vendor, r.device))
    }
}

/// The devices that answer the request whose bytes are `request` (see [`selected_devices`]).
pub fn select_devices(devices: &[PciDevice], request: &[u8]) -> (res: Vec<PciDevice>)
    requires
        request@.len() >= REQUEST_SIZE,
    ensures
        res@ == selected_devices(devices@, request_of_bytes(request@)),
{
    let r = PciGetDeviceInfoRequest::from_bytes(request);
    let by_class = find_pci_device_by_class_code(devices, r.class, r.subclass, r.interface);
    if by_class.len() == 0 {
        find_pci_device_by_vendor_device(devices, r.vendor, r.device)
    } else {
        by_class
    }
}

/// The data of the answer to an `Open` request: the description of each selected device, in order.
pub fn open_response(devices: &[PciDevice], request: &[u8]) -> (res: Vec<u8>)
    requires
        request@.len() >= REQUEST_SIZE,
        forall|i: int| 0 <= i < devices@.len() ==> device_bars_fit(#[trigger] devices@[i]),
    ensures
        exists|infos: Seq<PciDeviceInfo>|
            #![trigger infos_bytes(infos)]
            {
                let sel = selected_devices(devices@, request_of_bytes(request@));
                &&& infos.len() == sel.len()
                &&& forall|i: int| 0 <= i < sel.len() ==> describes(#[trigger] infos[i], sel[i])
                &&& res@ == infos_bytes(infos)
            },
{
    let selected = select_devices(devices, request);
    let ghost sel = selected@;
    proof {
        let p = |d: PciDevice| has_class(d, request_of_bytes(request@).class, request_of_bytes(request@).subclass, request_of_bytes(request@).interface);
        let q = |d: PciDevice| has_ids(d, request_of_bytes(request@).vendor, request_of_bytes(request@).device);
        assert forall|i: int| 0 <= i < sel.len() implies device_bars_fit(#[trigger] sel[i]) by {
            assert(sel.contains(sel[i]));
            if devices@.filter(p).len() > 0 {
                devices@.lemma_filter_contains_rev(p, sel[i]);
            } else {
                devices@.lemma_filter_contains_rev(q, sel[i]);
            }
            assert(devices@.contains(sel[i]));
        }
    }
    let mut out: Vec<u8> = Vec::new();
    let ghost mut infos: Seq<PciDeviceInfo> = Seq::empty();
    let mut i: usize = 0;
    while i < selected.len()
        invariant
            i <= sel.len(),
            sel == selected@,
            forall|k: int| 0 <= k < sel.len() ==> device_bars_fit(#[trigger] sel[k]),
            infos.len() == i,
            forall|k: int| 0 <= k < i ==> describes(#[trigger] infos[k], sel[k]),
            out@ == infos_bytes(infos),
        decreases sel.len() - i,
    {
        let info = device_info(&selected[i]);
        let mut b = info.to_bytes();
        out.append(&mut b);
        proof {
            assert(infos.push(info).drop_last() =~= infos);
            infos = infos.push(info);
        }
        i = i + 1;
    }
    out
}

/// The descriptions, one after the other.
pub open spec fn infos_bytes(infos: Seq<PciDeviceInfo>) -> Seq<u8>
    decreases infos.len(),
{
    if infos.len() == 0 {
        Seq::empty()
    } else {
        infos_bytes(infos.drop_last()) + device_info_bytes(infos.last())
    }
}

/// The command register with bus mastering, I/O and memory decoding enabled.
pub fn enable_command(command: u16) -> (res: u16)
    ensures
        res == command | 0b111u16,
{
    command | 0b111
}

} // verus!
