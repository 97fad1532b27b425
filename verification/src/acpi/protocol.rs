//! Records that the ACPI service sends.

use vstd::prelude::*;
use vstd::bytes::{
    spec_u16_from_le_bytes, spec_u16_to_le_bytes, spec_u64_from_le_bytes, spec_u64_to_le_bytes,
    u16_from_le_bytes, u16_to_le_bytes, u64_from_le_bytes, u64_to_le_bytes,
};
use vstd::slice::slice_subrange;

verus! {

/// Status of a successful answer.
pub const ACPI_DAEMON_STATUS_OK: i32 = 0;

/// Status of an answer about a table that does not exist.
pub const ACPI_DAEMON_STATUS_NOT_FOUND: i32 = 1;

/// Size in bytes of an [`AcpiMcfg`] record.
pub const MCFG_RECORD_SIZE: usize = 16;

/// One configuration space region of the MCFG table: where the configuration space of the buses
/// `bus_start..=bus_end` of a segment group is mapped.
#[derive(Debug, Clone, Copy, PartialEq, Eq, Structural)]
pub struct AcpiMcfg {
    /// Physical base address of the region.
    pub base_address: u64,
    /// PCI segment group.
    pub segment_group: u16,
    /// First bus of the region.
    pub bus_start: u8,
    /// Last bus of the region.
    pub bus_end: u8,
}

/// Bytes of a record: the address, the segment group (little-endian), the two bus numbers, then four bytes
/// of padding.
pub open spec fn mcfg_bytes(m: AcpiMcfg) -> Seq<u8> {
    spec_u64_to_le_bytes(m.base_address) + spec_u16_to_le_bytes(m.segment_group) + seq![
        m.bus_start,
        m.bus_end,
        0u8,
        0u8,
        0u8,
        0u8,
    ]
}

/// The record stored from byte `at` on.
pub open spec fn mcfg_at(bytes: Seq<u8>, at: int) -> AcpiMcfg {
    AcpiMcfg {
        base_address: spec_u64_from_le_bytes(bytes.subrange(at, at + 8)),
        segment_group: spec_u16_from_le_bytes(bytes.subrange(at + 8, at + 10)),
        bus_start: bytes[at + 10],
        bus_end: bytes[at + 11],
    }
}

impl AcpiMcfg {
    /// The 16 bytes of the record.
    pub fn to_bytes(&self) -> (res: Vec<u8>)
        ensures
            res@ == mcfg_bytes(*self),
            res@.len() == MCFG_RECORD_SIZE,
    {
        proof {
            vstd::bytes::lemma_auto_spec_u64_to_from_le_bytes();
            vstd::bytes::lemma_auto_spec_u16_to_from_le_bytes();
        }
        let mut out = u64_to_le_bytes(self.base_address);
        let mut b = u16_to_le_bytes(self.segment_group);
        out.append(&mut b);
        out.push(self.bus_start);
        out.push(self.bus_end);
        out.push(0);
        out.push(0);
        out.push(0);
        out.push(0);
        assert(out@ =~= mcfg_bytes(*self));
        out
    }

    /// Reads the record stored from byte `at` on.
    pub fn from_bytes_at(bytes: &[u8], at: usize) -> (res: Self)
        requires
            at + 16 <= bytes@.len(),
        ensures
            res == mcfg_at(bytes@, at as int),
    {
        let _n = bytes.len();
        AcpiMcfg {
            base_address: u64_from_le_bytes(slice_subrange(bytes, at, at + 8)),
            segment_group: u16_from_le_bytes(slice_subrange(bytes, at + 8, at + 10)),
            bus_start: bytes[at + 10],
            bus_end: bytes[at + 11],
        }
    }
}

/// The records of an answer of the ACPI service: as many whole 16-byte records as the data holds.
pub fn mcfg_records(data: &[u8]) -> (res: Vec<AcpiMcfg>)
    ensures
        res@.len() == data@.len() / 16,
        forall|i: int| 0 <= i < res@.len() ==> #[trigger] res@[i] == mcfg_at(data@, 16 * i),
{
    let n = data.len();
    let count = n / MCFG_RECORD_SIZE;
    let mut out: Vec<AcpiMcfg> = Vec::new();
    let mut i: usize = 0;
    while i < count
        invariant
            count == data@.len() / 16,
            n == data@.len(),
            i <= count,
            out@.len() == i,
            forall|k: int| 0 <= k < i ==> #[trigger] out@[k] == mcfg_at(data@, 16 * k),
        decreases count - i,
    {
        assert(16 * i + 16 <= data@.len()) by (nonlinear_arith)
            requires
                i < count,
                count == data@.len() / 16,
        ;
        out.push(AcpiMcfg::from_bytes_at(data, 16 * i));
        i = i + 1;
    }
    out
}

/// Reading back the bytes of a record gives the record back.
pub proof fn lemma_mcfg_roundtrip(m: AcpiMcfg)
    ensures
        mcfg_bytes(m).len() == 16,
        mcfg_at(mcfg_bytes(m), 0) == m,
{
    vstd::bytes::lemma_auto_spec_u64_to_from_le_bytes();
    vstd::bytes::lemma_auto_spec_u16_to_from_le_bytes();
    let s = mcfg_bytes(m);
    assert(s.subrange(0, 8) =~= spec_u64_to_le_bytes(m.base_address));
    assert(s.subrange(8, 10) =~= spec_u16_to_le_bytes(m.segment_group));
}

} // verus!
