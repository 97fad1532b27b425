//! Records that the PCI service exchanges with its clients, in their in-memory layout.
//!
//! `BarInfo` takes 16 bytes (address, size, type, then padding), `PciDeviceInfo` 112 bytes (six `BarInfo`,
//! class, subclass, interface, one byte of padding, vendor, device, subsystem vendor, subsystem device,
//! revision, padding) and `PciGetDeviceInfoRequest` 12 bytes (class, subclass, interface, one byte of
//! padding, then the four 16-bit identifiers); integers are little-endian and padding is zero.

use vstd::prelude::*;
use vstd::bytes::{
    spec_u16_from_le_bytes, spec_u16_to_le_bytes, spec_u32_from_le_bytes, spec_u32_to_le_bytes,
    spec_u64_from_le_bytes, spec_u64_to_le_bytes, u16_from_le_bytes, u16_to_le_bytes, u32_from_le_bytes,
    u32_to_le_bytes, u64_from_le_bytes, u64_to_le_bytes,
};
use vstd::slice::slice_subrange;

verus! {

/// Status of a successful answer.
pub const PCI_STATUS_OK: i32 = 0;

/// Status of an answer to an unknown operation.
pub const PCI_STATUS_NOT_FOUND: i32 = 1;

/// Type of a BAR that is an I/O port.
pub const BAR_TYPE_IO: u8 = 1;

/// Type of a BAR that maps memory.
pub const BAR_TYPE_MMIO: u8 = 2;

/// Number of BARs of a device.
pub const MAX_BARS: usize = 6;

/// Size in bytes of a [`BarInfo`].
pub const BAR_INFO_SIZE: usize = 16;

/// Size in bytes of a [`PciDeviceInfo`].
pub const DEVICE_INFO_SIZE: usize = 112;

/// Size in bytes of a [`PciGetDeviceInfoRequest`].
pub const REQUEST_SIZE: usize = 12;

/// A BAR as the service describes it; all zero for an absent BAR.
#[derive(Debug, Clone, Copy, PartialEq, Eq, Structural)]
pub struct BarInfo {
    /// Port or physical address.
    pub address: u64,
    /// Size in bytes (zero for a port).
    pub size: u32,
    /// [`BAR_TYPE_IO`], [`BAR_TYPE_MMIO`] or zero.
    pub bar_type: u8,
}

/// Bytes of a BAR description.
pub open spec fn bar_info_bytes(b: BarInfo) -> Seq<u8> {
    spec_u64_to_le_bytes(b.address) + spec_u32_to_le_bytes(b.size) + seq![b.bar_type, 0u8, 0u8, 0u8]
}

/// Appends `s` to `out`.
fn append_bytes(out: &mut Vec<u8>, s: Vec<u8>)
    ensures
        final(out)@ == old(out)@ + s@,
{
    let mut s = s;
    out.append(&mut s);
}

impl BarInfo {
    /// The absent BAR.
    pub fn zeroed() -> (res: Self)
        ensures
            res == (BarInfo { address: 0, size: 0, bar_type: 0 }),
    {
        BarInfo { address: 0, size: 0, bar_type: 0 }
    }

    /// The 16 bytes of the description.
    pub fn to_bytes(&self) -> (res: Vec<u8>)
        ensures
            res@ == bar_info_bytes(*self),
            res@.len() == BAR_INFO_SIZE,
    {
        proof {
            vstd::bytes::lemma_auto_spec_u64_to_from_le_bytes();
            vstd::bytes::lemma_auto_spec_u32_to_from_le_bytes();
        }
        let mut out = u64_to_le_bytes(self.address);
        append_bytes(&mut out, u32_to_le_bytes(self.size));
        out.push(self.bar_type);
        out.push(0);
        out.push(0);
        out.push(0);
        assert(out@ =~= bar_info_bytes(*self));
        out
    }
}

/// What the service tells of a device.
#[derive(Debug, Clone, Copy)]
pub struct PciDeviceInfo {
    /// Its BARs.
    pub bars: [BarInfo; 6],
    /// Base class.
    pub class: u8,
    /// Subclass.
    pub subclass: u8,
    /// Programming interface.
    pub interface: u8,
    /// Vendor identifier.
    pub vendor: u16,
    /// Device identifier.
    pub device: u16,
    /// Subsystem vendor identifier.
    pub subsystem_vendor: u16,
    /// Subsystem identifier.
    pub subsystem_device: u16,
    /// Revision.
    pub revision: u8,
}

/// The descriptions of the BARs, in order.
pub open spec fn bars_bytes(bars: Seq<BarInfo>) -> Seq<u8>
    decreases bars.len(),
{
    if bars.len() == 0 {
        Seq::empty()
    } else {
        bars_bytes(bars.drop_last()) + bar_info_bytes(bars.last())
    }
}

/// Bytes of a device description.
pub open spec fn device_info_bytes(d: PciDeviceInfo) -> Seq<u8> {
    bars_bytes(d.bars@) + seq![d.class, d.subclass, d.interface, 0u8] + spec_u16_to_le_bytes(d.vendor)
        + spec_u16_to_le_bytes(d.device) + spec_u16_to_le_bytes(d.subsystem_vendor) + spec_u16_to_le_bytes(
        d.subsystem_device,
    ) + seq![d.revision, 0u8, 0u8, 0u8]
}

/// The BAR description stored from byte `16 * i` on.
pub open spec fn bar_info_at(bytes: Seq<u8>, i: int) -> BarInfo {
    BarInfo {
        address: spec_u64_from_le_bytes(bytes.subrange(16 * i, 16 * i + 8)),
        size: spec_u32_from_le_bytes(bytes.subrange(16 * i + 8, 16 * i + 12)),
        bar_type: bytes[16 * i + 12],
    }
}

/// The 16-bit integer stored from byte `at` on.
pub open spec fn u16_at(bytes: Seq<u8>, at: int) -> u16 {
    spec_u16_from_le_bytes(bytes.subrange(at, at + 2))
}

/// Whether `d` is the device description stored at the start of `bytes`.
pub open spec fn device_info_read(bytes: Seq<u8>, d: PciDeviceInfo) -> bool {
    &&& forall|i: int| 0 <= i < 6 ==> #[trigger] d.bars@[i] == bar_info_at(bytes, i)
    &&& d.class == bytes[96]
    &&& d.subclass == bytes[97]
    &&& d.interface == bytes[98]
    &&& d.vendor == u16_at(bytes, 100)
    &&& d.device == u16_at(bytes, 102)
    &&& d.subsystem_vendor == u16_at(bytes, 104)
    &&& d.subsystem_device == u16_at(bytes, 106)
    &&& d.revision == bytes[108]
}

/// Reads the BAR description stored from byte `16 * i` on.
fn read_bar_info(bytes: &[u8], i: usize) -> (res: BarInfo)
    requires
        i < 6,
        bytes@.len() >= 96,
    ensures
        res == bar_info_at(bytes@, i as int),
{
    let at = 16 * i;
    BarInfo {
        address: u64_from_le_bytes(slice_subrange(bytes, at, at + 8)),
        size: u32_from_le_bytes(slice_subrange(bytes, at + 8, at + 12)),
        bar_type: bytes[at + 12],
    }
}

/// Reads the 16-bit integer stored from byte `at` on.
fn read_u16(bytes: &[u8], at: usize) -> (res: u16)
    requires
        at + 2 <= bytes@.len(),
    ensures
        res == u16_at(bytes@, at as int),
{
    let _n = bytes.len();
    u16_from_le_bytes(slice_subrange(bytes, at, at + 2))
}

impl PciDeviceInfo {
    /// Reads a device description from the first 112 bytes.
    pub fn from_bytes(bytes: &[u8]) -> (res: Self)
        requires
            bytes@.len() >= DEVICE_INFO_SIZE,
        ensures
            device_info_read(bytes@, res),
    {
        let bars = [
            read_bar_info(bytes, 0),
            read_bar_info(bytes, 1),
            read_bar_info(bytes, 2),
            read_bar_info(bytes, 3),
            read_bar_info(bytes, 4),
            read_bar_info(bytes, 5),
        ];
        let res = PciDeviceInfo {
            bars,
            class: bytes[96],
            subclass: bytes[97],
            interface: bytes[98],
            vendor: read_u16(bytes, 100),
            device: read_u16(bytes, 102),
            subsystem_vendor: read_u16(bytes, 104),
            subsystem_device: read_u16(bytes, 106),
            revision: bytes[108],
        };
        assert forall|i: int| 0 <= i < 6 implies #[trigger] res.bars@[i] == bar_info_at(bytes@, i) by {
            if i == 0 {
            } else if i == 1 {
            } else if i == 2 {
            } else if i == 3 {
            } else if i == 4 {
            } else {
            }
        }
        res
    }

    /// The 112 bytes of the description.
    pub fn to_bytes(&self) -> (res: Vec<u8>)
        ensures
            res@ == device_info_bytes(*self),
    {
        let mut out: Vec<u8> = Vec::new();
        let mut i: usize = 0;
        while i < 6
            invariant
                i <= 6,
                out@ == bars_bytes(self.bars@.subrange(0, i as int)),
            decreases 6 - i,
        {
            append_bytes(&mut out, self.bars[i].to_bytes());
            proof {
                let sub = self.bars@.subrange(0, i + 1);
                assert(sub.drop_last() =~= self.bars@.subrange(0, i as int));
                assert(sub.last() == self.bars@[i as int]);
            }
            i = i + 1;
        }
        assert(self.bars@.subrange(0, 6) =~= self.bars@);
        out.push(self.class);
        out.push(self.subclass);
        out.push(self.interface);
        out.push(0);
        append_bytes(&mut out, u16_to_le_bytes(self.vendor));
        append_bytes(&mut out, u16_to_le_bytes(self.device));
        append_bytes(&mut out, u16_to_le_bytes(self.subsystem_vendor));
        append_bytes(&mut out, u16_to_le_bytes(self.subsystem_device));
        out.push(self.revision);
        out.push(0);
        out.push(0);
        out.push(0);
        assert(out@ =~= device_info_bytes(*self));
        out
    }
}

/// The device descriptions of an answer of the service: as many whole 112-byte descriptions as the data
/// holds, in order.
pub fn device_infos_from_bytes(data: &[u8]) -> (res: Vec<PciDeviceInfo>)
    ensures
        res@.len() == data@.len() / 112,
        forall|i: int| 0 <= i < res@.len() ==> device_info_read(data@.subrange(112 * i, data@.len() as int), #[trigger] res@[i]),
{
    let n = data.len();
    let count = n / DEVICE_INFO_SIZE;
    let mut out: Vec<PciDeviceInfo> = Vec::new();
    let mut i: usize = 0;
    while i < count
        invariant
            count == data@.len() / 112,
            n == data@.len(),
            i <= count,
            out@.len() == i,
            forall|k: int| 0 <= k < i ==> device_info_read(data@.subrange(112 * k, data@.len() as int), #[trigger] out@[k]),
        decreases count - i,
    {
        assert(112 * i + 112 <= data@.len()) by (nonlinear_arith)
            requires
                i < count,
                count == data@.len() / 112,
        ;
        let rest = slice_subrange(data, 112 * i, n);
        out.push(PciDeviceInfo::from_bytes(rest));
        i = i + 1;
    }
    out
}

/// What a client asks the service: devices of a class, or else of a vendor and device.
#[derive(Debug, Clone, Copy, PartialEq, Eq, Structural)]
pub struct PciGetDeviceInfoRequest {
    /// Base class.
    pub class: u8,
    /// Subclass.
    pub subclass: u8,
    /// Programming interface.
    pub interface: u8,
    /// Vendor identifier.
    pub vendor: u16,
    /// Device identifier.
    pub device: u16,
    /// Subsystem vendor identifier.
    pub subsystem_vendor: u16,
    /// Subsystem identifier.
    pub subsystem_device: u16,
}

/// Bytes of a request.
pub open spec fn request_bytes(r: PciGetDeviceInfoRequest) -> Seq<u8> {
    seq![r.class, r.subclass, r.interface, 0u8] + spec_u16_to_le_bytes(r.vendor) + spec_u16_to_le_bytes(r.device)
        + spec_u16_to_le_bytes(r.subsystem_vendor) + spec_u16_to_le_bytes(r.subsystem_device)
}

/// The request stored at the start of `bytes`.
pub open spec fn request_of_bytes(bytes: Seq<u8>) -> PciGetDeviceInfoRequest {
    PciGetDeviceInfoRequest {
        class: bytes[0],
        subclass: bytes[1],
        interface: bytes[2],
        vendor: u16_at(bytes, 4),
        device: u16_at(bytes, 6),
        subsystem_vendor: u16_at(bytes, 8),
        subsystem_device: u16_at(bytes, 10),
    }
}

impl PciGetDeviceInfoRequest {
    /// Reads a request from the first 12 bytes.
    pub fn from_bytes(bytes: &[u8]) -> (res: Self)
        requires
            bytes@.len() >= REQUEST_SIZE,
        ensures
            res == request_of_bytes(bytes@),
    {
        PciGetDeviceInfoRequest {
            class: bytes[0],
            subclass: bytes[1],
            interface: bytes[2],
            vendor: read_u16(bytes, 4),
            device: read_u16(bytes, 6),
            subsystem_vendor: read_u16(bytes, 8),
            subsystem_device: read_u16(bytes, 10),
        }
    }

    /// The 12 bytes of the request.
    pub fn to_bytes(&self) -> (res: Vec<u8>)
        ensures
            res@ == request_bytes(*self),
            res@.len() == REQUEST_SIZE,
    {
        proof {
            vstd::bytes::lemma_auto_spec_u16_to_from_le_bytes();
        }
        let mut out: Vec<u8> = Vec::new();
        out.push(self.class);
        out.push(self.subclass);
        out.push(self.interface);
        out.push(0);
        append_bytes(&mut out, u16_to_le_bytes(self.vendor));
        append_bytes(&mut out, u16_to_le_bytes(self.device));
        append_bytes(&mut out, u16_to_le_bytes(self.subsystem_vendor));
        append_bytes(&mut out, u16_to_le_bytes(self.subsystem_device));
        assert(out@ =~= request_bytes(*self));
        out
    }
}

/// Reading back the bytes of a request gives the request back.
pub proof fn lemma_request_roundtrip(r: PciGetDeviceInfoRequest)
    ensures
        request_bytes(r).len() == REQUEST_SIZE,
        request_of_bytes(request_bytes(r)) == r,
{
    vstd::bytes::lemma_auto_spec_u16_to_from_le_bytes();
    let s = request_bytes(r);
    assert(s.subrange(4, 6) =~= spec_u16_to_le_bytes(r.vendor));
    assert(s.subrange(6, 8) =~= spec_u16_to_le_bytes(r.device));
    assert(s.subrange(8, 10) =~= spec_u16_to_le_bytes(r.subsystem_vendor));
    assert(s.subrange(10, 12) =~= spec_u16_to_le_bytes(r.subsystem_device));
}

/// The bytes of descriptions of BARs: 16 per BAR, each reading back as that BAR.
proof fn lemma_bars_bytes(bars: Seq<BarInfo>)
    ensures
        bars_bytes(bars).len() == 16 * bars.len(),
        forall|i: int| 0 <= i < bars.len() ==> #[trigger] bar_info_at(bars_bytes(bars), i) == bars[i],
    decreases bars.len(),
{
    vstd::bytes::lemma_auto_spec_u64_to_from_le_bytes();
    vstd::bytes::lemma_auto_spec_u32_to_from_le_bytes();
    if bars.len() > 0 {
        let front = bars.drop_last();
        lemma_bars_bytes(front);
        let s = bars_bytes(bars);
        let n: int = 16 * front.len() as int;
        assert(s == bars_bytes(front) + bar_info_bytes(bars.last()));
        assert forall|i: int| 0 <= i < bars.len() implies #[trigger] bar_info_at(bars_bytes(bars), i) == bars[i] by {
            if i < front.len() {
                assert(s.subrange(16 * i, 16 * i + 8) =~= bars_bytes(front).subrange(16 * i, 16 * i + 8));
                assert(s.subrange(16 * i + 8, 16 * i + 12) =~= bars_bytes(front).subrange(16 * i + 8, 16 * i + 12));
                assert(s[16 * i + 12] == bars_bytes(front)[16 * i + 12]);
                assert(bar_info_at(bars_bytes(front), i) == front[i]);
            } else {
                let b = bars.last();
                assert(s.subrange(n, n + 8) =~= spec_u64_to_le_bytes(b.address));
                assert(s.subrange(n + 8, n + 12) =~= spec_u32_to_le_bytes(b.size));
                assert(s[n + 12] == b.bar_type);
            }
        }
    }
}

/// Reading back the bytes of a device description gives the description back.
pub proof fn lemma_device_info_roundtrip(d: PciDeviceInfo)
    ensures
        device_info_bytes(d).len() == DEVICE_INFO_SIZE,
        device_info_read(device_info_bytes(d), d),
{
    vstd::bytes::lemma_auto_spec_u16_to_from_le_bytes();
    lemma_bars_bytes(d.bars@);
    let s = device_info_bytes(d);
    let bb = bars_bytes(d.bars@);
    assert forall|i: int| 0 <= i < 6 implies #[trigger] d.bars@[i] == bar_info_at(s, i) by {
        assert(s.subrange(16 * i, 16 * i + 8) =~= bb.subrange(16 * i, 16 * i + 8));
        assert(s.subrange(16 * i + 8, 16 * i + 12) =~= bb.subrange(16 * i + 8, 16 * i + 12));
        assert(s[16 * i + 12] == bb[16 * i + 12]);
        assert(bar_info_at(bb, i) == d.bars@[i]);
    }
    assert(s.subrange(100, 102) =~= spec_u16_to_le_bytes(d.vendor));
    assert(s.subrange(102, 104) =~= spec_u16_to_le_bytes(d.device));
    assert(s.subrange(104, 106) =~= spec_u16_to_le_bytes(d.subsystem_vendor));
    assert(s.subrange(106, 108) =~= spec_u16_to_le_bytes(d.subsystem_device));
}

} // verus!
