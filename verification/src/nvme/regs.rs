//! NVMe controller registers: field extraction and composition, and doorbell offsets.

use vstd::prelude::*;
use vstd::arithmetic::power2::pow2;

use crate::nvme::cap::{cap_dstrd_field, cap_mpsmax_field, cap_mpsmin_field, cap_mqes_field, cap_to_field, dstrd, mpsmax, mpsmin, mqes, timeout_ms};
use crate::nvme::csts::{is_fatal, is_ready, shutdown_complete};

verus! {

/// Offset of the first doorbell register.
pub const DOORBELL_BASE: usize = 0x1000;

/// Parsed controller capabilities.
#[derive(Debug, Clone, Copy)]
pub struct ControllerCapabilities {
    /// Maximum number of queue entries.
    pub max_queue_entries: u16,
    /// Doorbell stride field.
    pub doorbell_stride: usize,
    /// Minimum memory page size in bytes.
    pub min_page_size: usize,
    /// Maximum memory page size in bytes.
    pub max_page_size: usize,
    /// Timeout in milliseconds.
    pub timeout_ms: u32,
}

/// A 32-bit write to perform on the MMIO region of the controller.
#[derive(Debug, Clone, Copy, PartialEq, Eq, Structural)]
pub struct MmioWrite {
    /// Offset of the register in the MMIO region.
    pub offset: usize,
    /// Value to write.
    pub value: u32,
}

/// Outcome of one look at the CSTS register while waiting for the controller.
#[derive(Debug, Clone, Copy, PartialEq, Eq, Structural)]
pub enum WaitStatus {
    /// The awaited state is reached.
    Done,
    /// The controller reports a fatal error.
    Fatal,
    /// The awaited state is not reached yet: read CSTS again.
    Pending,
}

/// Offset of the doorbell register number `index` for a doorbell stride field `dstrd`.
pub open spec fn doorbell_offset_spec(index: int, dstrd: usize) -> int {
    0x1000 + index * (4 * pow2(dstrd as nat))
}

/// Whether the doorbell offsets of a queue can be computed without overflow.
pub open spec fn doorbells_computable(qid: u16, dstrd: usize) -> bool {
    dstrd < 30 && doorbell_offset_spec(2 * qid + 1, dstrd) <= usize::MAX
}

/// The register file of an NVMe controller, seen through its MMIO region.
#[derive(Debug, Clone, Copy)]
pub struct NvmeRegs {
    /// Virtual address of the MMIO region.
    base: usize,
    /// Size of the MMIO region in bytes.
    size: usize,
}

impl NvmeRegs {
    /// Describes the register file mapped at `base` over `size` bytes.
    pub fn new(base: usize, size: usize) -> (res: Self)
        ensures
            res.base_spec() == base,
            res.size_spec() == size,
    {
        NvmeRegs { base, size }
    }

    /// Virtual address of the MMIO region.
    pub closed spec fn base_spec(&self) -> usize {
        self.base
    }

    /// Size of the MMIO region.
    pub closed spec fn size_spec(&self) -> usize {
        self.size
    }

    /// Returns the virtual address of the MMIO region.
    pub fn mmio(&self) -> (res: (usize, usize))
        ensures
            res == (self.base_spec(), self.size_spec()),
    {
        (self.base, self.size)
    }

    /// Offset of the submission queue doorbell: `0x1000 + (2 * qid) * (4 << dstrd)`.
    pub fn sq_doorbell_offset(&self, qid: u16, dstrd: usize) -> (res: usize)
        requires
            doorbells_computable(qid, dstrd),
        ensures
            res == doorbell_offset_spec(2 * qid, dstrd),
    {
        doorbell_offset(2 * (qid as usize), dstrd, qid)
    }

    /// Offset of the completion queue doorbell: `0x1000 + (2 * qid + 1) * (4 << dstrd)`.
    pub fn cq_doorbell_offset(&self, qid: u16, dstrd: usize) -> (res: usize)
        requires
            doorbells_computable(qid, dstrd),
        ensures
            res == doorbell_offset_spec(2 * qid + 1, dstrd),
    {
        doorbell_offset(2 * (qid as usize) + 1, dstrd, qid)
    }

    /// Returns the write that rings the submission queue doorbell with the new tail.
    pub fn write_sq_doorbell(&self, qid: u16, dstrd: usize, value: u16) -> (res: MmioWrite)
        requires
            doorbells_computable(qid, dstrd),
        ensures
            res == (MmioWrite { offset: doorbell_offset_spec(2 * qid, dstrd) as usize, value: value as u32 }),
    {
        MmioWrite { offset: self.sq_doorbell_offset(qid, dstrd), value: value as u32 }
    }

    /// Returns the write that rings the completion queue doorbell with the new head.
    pub fn write_cq_doorbell(&self, qid: u16, dstrd: usize, value: u16) -> (res: MmioWrite)
        requires
            doorbells_computable(qid, dstrd),
        ensures
            res == (MmioWrite { offset: doorbell_offset_spec(2 * qid + 1, dstrd) as usize, value: value as u32 }),
    {
        MmioWrite { offset: self.cq_doorbell_offset(qid, dstrd), value: value as u32 }
    }

    /// Parses the capabilities of the controller from the value read in the CAP register.
    pub fn read_capabilities(&self, cap: u64) -> (res: ControllerCapabilities)
        ensures
            res.max_queue_entries == (cap_mqes_field(cap) + 1) % 0x1_0000,
            res.doorbell_stride == cap_dstrd_field(cap),
            res.min_page_size == pow2((12 + cap_mpsmin_field(cap)) as nat),
            res.max_page_size == pow2((12 + cap_mpsmax_field(cap)) as nat),
            res.timeout_ms == cap_to_field(cap) * 500,
    {
        ControllerCapabilities {
            max_queue_entries: mqes(cap),
            doorbell_stride: dstrd(cap),
            min_page_size: mpsmin(cap),
            max_page_size: mpsmax(cap),
            timeout_ms: timeout_ms(cap),
        }
    }

    /// Decides, from a value read in CSTS, whether the controller became ready.
    pub fn wait_ready(&self, csts: u32) -> (res: WaitStatus)
        ensures
            (csts / 2) % 2 == 1 ==> res == WaitStatus::Fatal,
            (csts / 2) % 2 != 1 && csts % 2 == 1 ==> res == WaitStatus::Done,
            (csts / 2) % 2 != 1 && csts % 2 != 1 ==> res == WaitStatus::Pending,
    {
        if is_fatal(csts) {
            WaitStatus::Fatal
        } else if is_ready(csts) {
            WaitStatus::Done
        } else {
            WaitStatus::Pending
        }
    }

    /// Decides, from a value read in CSTS, whether the controller became disabled.
    pub fn wait_disabled(&self, csts: u32) -> (res: WaitStatus)
        ensures
            (csts / 2) % 2 == 1 ==> res == WaitStatus::Fatal,
            (csts / 2) % 2 != 1 && csts % 2 != 1 ==> res == WaitStatus::Done,
            (csts / 2) % 2 != 1 && csts % 2 == 1 ==> res == WaitStatus::Pending,
    {
        if is_fatal(csts) {
            WaitStatus::Fatal
        } else if !is_ready(csts) {
            WaitStatus::Done
        } else {
            WaitStatus::Pending
        }
    }

    /// Decides, from a value read in CSTS, whether the shutdown completed.
    pub fn wait_shutdown(&self, csts: u32) -> (res: WaitStatus)
        ensures
            (csts / 4) % 4 == 2 ==> res == WaitStatus::Done,
            (csts / 4) % 4 != 2 ==> res == WaitStatus::Pending,
    {
        if shutdown_complete(csts) {
            WaitStatus::Done
        } else {
            WaitStatus::Pending
        }
    }
}

/// Offset of the doorbell register number `index`.
fn doorbell_offset(index: usize, dstrd: usize, qid: u16) -> (res: usize)
    requires
        index == 2 * qid || index == 2 * qid + 1,
        doorbells_computable(qid, dstrd),
    ensures
        res == doorbell_offset_spec(index as int, dstrd),
{
    proof {
        vstd::bits::lemma_usize_pow2_no_overflow(dstrd as nat);
        vstd::arithmetic::power2::lemma_pow2_adds(2, dstrd as nat);
        vstd::arithmetic::power2::lemma2_to64();
        vstd::bits::lemma_usize_pow2_no_overflow((dstrd + 2) as nat);
        vstd::bits::lemma_usize_shl_is_mul(4, dstrd);
        assert(index * (4 * pow2(dstrd as nat)) <= (2 * qid + 1) * (4 * pow2(dstrd as nat))) by (nonlinear_arith)
            requires
                index <= 2 * qid + 1,
        ;
    }
    let stride: usize = 4usize << dstrd;
    DOORBELL_BASE + index * stride
}

/// The doorbells of a queue are adjacent: the submission doorbell of queue `qid`
/// ([`NvmeRegs::sq_doorbell_offset`], which gives `doorbell_offset_spec(2 * qid, dstrd)`) lies at
/// `0x1000 + 2 * qid * (4 << dstrd)`, and the completion doorbell ([`NvmeRegs::cq_doorbell_offset`], which gives
/// `doorbell_offset_spec(2 * qid + 1, dstrd)`) one stride `4 << dstrd` after it; for instance `0x1008` and
/// `0x100C` for queue 1 with a stride field of 0. It holds wherever those offsets fit in a machine word.
pub proof fn lemma_doorbells_adjacent(qid: u16, dstrd: usize)
    requires
        doorbells_computable(qid, dstrd),
    ensures
        doorbell_offset_spec(2 * qid, dstrd) == 0x1000 + 2 * qid * (4usize << dstrd),
        doorbell_offset_spec(2 * qid + 1, dstrd) == doorbell_offset_spec(2 * qid, dstrd) + (4usize << dstrd),
{
    vstd::bits::lemma_usize_pow2_no_overflow(dstrd as nat);
    vstd::arithmetic::power2::lemma_pow2_adds(2, dstrd as nat);
    vstd::arithmetic::power2::lemma2_to64();
    vstd::bits::lemma_usize_pow2_no_overflow((dstrd + 2) as nat);
    vstd::bits::lemma_usize_shl_is_mul(4, dstrd);
    let stride = 4 * pow2(dstrd as nat);
    assert((2 * qid + 1) * stride == 2 * qid * stride + stride) by (nonlinear_arith);
}

} // verus!
