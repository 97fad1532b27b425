//! NVMe submission and completion queue entries.

use vstd::prelude::*;
use vstd::bytes::*;
use vstd::slice::slice_subrange;

verus! {

/// Admin command: delete I/O submission queue.
pub const ADMIN_DELETE_SQ: u8 = 0x00;
/// Admin command: create I/O submission queue.
pub const ADMIN_CREATE_SQ: u8 = 0x01;
/// Admin command: delete I/O completion queue.
pub const ADMIN_DELETE_CQ: u8 = 0x04;
/// Admin command: create I/O completion queue.
pub const ADMIN_CREATE_CQ: u8 = 0x05;
/// Admin command: identify.
pub const ADMIN_IDENTIFY: u8 = 0x06;
/// Admin command: set features.
pub const ADMIN_SET_FEATURES: u8 = 0x09;
/// I/O command: flush.
pub const IO_FLUSH: u8 = 0x00;
/// I/O command: write.
pub const IO_WRITE: u8 = 0x01;
/// I/O command: read.
pub const IO_READ: u8 = 0x02;

/// Size in bytes of a submission queue entry.
pub const SUBMISSION_ENTRY_SIZE: usize = 64;
/// Size in bytes of a completion queue entry.
pub const COMPLETION_ENTRY_SIZE: usize = 16;

/// NVMe submission queue entry (command).
#[derive(Clone, Copy, Debug, Default, PartialEq, Eq, Structural)]
pub struct SubmissionEntry {
    /// Opcode (CDW0 bits 7:0).
    pub opcode: u8,
    /// Flags (CDW0 bits 15:8).
    pub flags: u8,
    /// Command ID (CDW0 bits 31:16).
    pub cid: u16,
    /// Namespace ID (CDW1).
    pub nsid: u32,
    /// Reserved (CDW2-3).
    pub _rsvd: u64,
    /// Metadata pointer (CDW4-5).
    pub mptr: u64,
    /// Data pointer: PRP1 (CDW6-7).
    pub dptr1: u64,
    /// Data pointer: PRP2 (CDW8-9).
    pub dptr2: u64,
    /// Command dword 10.
    pub cdw10: u32,
    /// Command dword 11.
    pub cdw11: u32,
    /// Command dword 12.
    pub cdw12: u32,
    /// Command dword 13.
    pub cdw13: u32,
    /// Command dword 14.
    pub cdw14: u32,
    /// Command dword 15.
    pub cdw15: u32,
}

/// The entry with the given fields and all other fields zero.
pub open spec fn command_spec(
    opcode: u8,
    cid: u16,
    nsid: u32,
    dptr1: u64,
    dptr2: u64,
    cdw10: u32,
    cdw11: u32,
    cdw12: u32,
) -> SubmissionEntry {
    SubmissionEntry {
        opcode,
        flags: 0,
        cid,
        nsid,
        _rsvd: 0,
        mptr: 0,
        dptr1,
        dptr2,
        cdw10,
        cdw11,
        cdw12,
        cdw13: 0,
        cdw14: 0,
        cdw15: 0,
    }
}

/// Builds the entry with the given fields and all other fields zero.
fn command(opcode: u8, cid: u16, nsid: u32, dptr1: u64, dptr2: u64, cdw10: u32, cdw11: u32, cdw12: u32) -> (res:
    SubmissionEntry)
    ensures
        res == command_spec(opcode, cid, nsid, dptr1, dptr2, cdw10, cdw11, cdw12),
        res.opcode == opcode && res.flags == 0 && res.cid == cid && res.nsid == nsid,
        res._rsvd == 0 && res.mptr == 0,
        res.dptr1 == dptr1 && res.dptr2 == dptr2,
        res.cdw10 == cdw10 && res.cdw11 == cdw11 && res.cdw12 == cdw12,
        res.cdw13 == 0 && res.cdw14 == 0 && res.cdw15 == 0,
{
    SubmissionEntry {
        opcode,
        flags: 0,
        cid,
        nsid,
        _rsvd: 0,
        mptr: 0,
        dptr1,
        dptr2,
        cdw10,
        cdw11,
        cdw12,
        cdw13: 0,
        cdw14: 0,
        cdw15: 0,
    }
}

/// The little-endian encoding of a submission entry, in the order of its fields.
pub open spec fn submission_entry_bytes(e: SubmissionEntry) -> Seq<u8> {
    seq![e.opcode, e.flags] + spec_u16_to_le_bytes(e.cid) + spec_u32_to_le_bytes(e.nsid) + spec_u64_to_le_bytes(
        e._rsvd,
    ) + spec_u64_to_le_bytes(e.mptr) + spec_u64_to_le_bytes(e.dptr1) + spec_u64_to_le_bytes(e.dptr2)
        + spec_u32_to_le_bytes(e.cdw10) + spec_u32_to_le_bytes(e.cdw11) + spec_u32_to_le_bytes(e.cdw12)
        + spec_u32_to_le_bytes(e.cdw13) + spec_u32_to_le_bytes(e.cdw14) + spec_u32_to_le_bytes(e.cdw15)
}

impl SubmissionEntry {
    /// Builds an Identify command (CNS in CDW10).
    pub fn identify(cid: u16, nsid: u32, cns: u8, prp1: u64) -> (res: Self)
        ensures
            res == command_spec(ADMIN_IDENTIFY, cid, nsid, prp1, 0, cns as u32, 0, 0),
            res.opcode == ADMIN_IDENTIFY && res.cid == cid && res.nsid == nsid,
            res.dptr1 == prp1 && res.dptr2 == 0,
            res.cdw10 == cns && res.cdw11 == 0 && res.cdw12 == 0,
    {
        command(ADMIN_IDENTIFY, cid, nsid, prp1, 0, cns as u32, 0, 0)
    }

    /// Builds a Create I/O Completion Queue command: 0-based size and queue ID in CDW10, physically contiguous.
    pub fn create_io_cq(cid: u16, qid: u16, prp: u64, size: u16) -> (res: Self)
        requires
            size >= 1,
        ensures
            res == command_spec(ADMIN_CREATE_CQ, cid, 0, prp, 0, ((size - 1) * 0x1_0000 + qid) as u32, 1, 0),
            res.opcode == ADMIN_CREATE_CQ && res.cid == cid && res.nsid == 0,
            res.dptr1 == prp && res.dptr2 == 0,
            res.cdw10 == (size - 1) * 0x1_0000 + qid && res.cdw11 == 1,
    {
        command(ADMIN_CREATE_CQ, cid, 0, prp, 0, pack16(size as u32 - 1, qid as u32), 1, 0)
    }

    /// Builds a Create I/O Submission Queue command: 0-based size and queue ID in CDW10, completion queue ID in
    /// CDW11, physically contiguous.
    pub fn create_io_sq(cid: u16, qid: u16, prp: u64, size: u16, cqid: u16) -> (res: Self)
        requires
            size >= 1,
        ensures
            res == command_spec(
                ADMIN_CREATE_SQ,
                cid,
                0,
                prp,
                0,
                ((size - 1) * 0x1_0000 + qid) as u32,
                (cqid * 0x1_0000 + 1) as u32,
                0,
            ),
            res.opcode == ADMIN_CREATE_SQ && res.cid == cid && res.nsid == 0,
            res.dptr1 == prp && res.dptr2 == 0,
            res.cdw10 == (size - 1) * 0x1_0000 + qid && res.cdw11 == cqid * 0x1_0000 + 1,
    {
        command(ADMIN_CREATE_SQ, cid, 0, prp, 0, pack16(size as u32 - 1, qid as u32), pack16(cqid as u32, 1), 0)
    }

    /// Builds a Delete I/O Submission Queue command.
    pub fn delete_io_sq(cid: u16, qid: u16) -> (res: Self)
        ensures
            res == command_spec(ADMIN_DELETE_SQ, cid, 0, 0, 0, qid as u32, 0, 0),
            res.opcode == ADMIN_DELETE_SQ && res.cid == cid && res.dptr1 == 0 && res.dptr2 == 0 && res.cdw10 == qid,
    {
        command(ADMIN_DELETE_SQ, cid, 0, 0, 0, qid as u32, 0, 0)
    }

    /// Builds a Delete I/O Completion Queue command.
    pub fn delete_io_cq(cid: u16, qid: u16) -> (res: Self)
        ensures
            res == command_spec(ADMIN_DELETE_CQ, cid, 0, 0, 0, qid as u32, 0, 0),
            res.opcode == ADMIN_DELETE_CQ && res.cid == cid && res.dptr1 == 0 && res.dptr2 == 0 && res.cdw10 == qid,
    {
        command(ADMIN_DELETE_CQ, cid, 0, 0, 0, qid as u32, 0, 0)
    }

    /// Builds a Read command: starting LBA split over CDW10-11, 0-based block count in CDW12.
    pub fn read(cid: u16, nsid: u32, lba: u64, block_count: u16, prp1: u64, prp2: u64) -> (res: Self)
        requires
            block_count >= 1,
        ensures
            res == command_spec(
                IO_READ,
                cid,
                nsid,
                prp1,
                prp2,
                (lba % 0x1_0000_0000) as u32,
                (lba / 0x1_0000_0000) as u32,
                (block_count - 1) as u32,
            ),
            res.opcode == IO_READ && res.cid == cid && res.nsid == nsid,
            res.dptr1 == prp1 && res.dptr2 == prp2,
            res.cdw11 as int * 0x1_0000_0000 + res.cdw10 == lba,
            res.cdw12 + 1 == block_count,
    {
        command(IO_READ, cid, nsid, prp1, prp2, (lba % 0x1_0000_0000) as u32, (lba / 0x1_0000_0000) as u32, (
        block_count - 1) as u32)
    }

    /// Builds a Write command: starting LBA split over CDW10-11, 0-based block count in CDW12.
    pub fn write(cid: u16, nsid: u32, lba: u64, block_count: u16, prp1: u64, prp2: u64) -> (res: Self)
        requires
            block_count >= 1,
        ensures
            res == command_spec(
                IO_WRITE,
                cid,
                nsid,
                prp1,
                prp2,
                (lba % 0x1_0000_0000) as u32,
                (lba / 0x1_0000_0000) as u32,
                (block_count - 1) as u32,
            ),
            res.opcode == IO_WRITE && res.cid == cid && res.nsid == nsid,
            res.dptr1 == prp1 && res.dptr2 == prp2,
            res.cdw11 as int * 0x1_0000_0000 + res.cdw10 == lba,
            res.cdw12 + 1 == block_count,
    {
        command(IO_WRITE, cid, nsid, prp1, prp2, (lba % 0x1_0000_0000) as u32, (lba / 0x1_0000_0000) as u32, (
        block_count - 1) as u32)
    }

    /// Builds a Flush command.
    pub fn flush(cid: u16, nsid: u32) -> (res: Self)
        ensures
            res == command_spec(IO_FLUSH, cid, nsid, 0, 0, 0, 0, 0),
            res.opcode == IO_FLUSH && res.cid == cid && res.nsid == nsid && res.dptr1 == 0 && res.dptr2 == 0,
    {
        command(IO_FLUSH, cid, nsid, 0, 0, 0, 0, 0)
    }

    /// Returns the 64-byte little-endian encoding of the entry, as the controller reads it.
    pub fn to_bytes(&self) -> (res: Vec<u8>)
        ensures
            res@ == submission_entry_bytes(*self),
            res@.len() == SUBMISSION_ENTRY_SIZE,
    {
        let mut out: Vec<u8> = Vec::new();
        out.push(self.opcode);
        out.push(self.flags);
        let mut b = u16_to_le_bytes(self.cid);
        out.append(&mut b);
        let mut b = u32_to_le_bytes(self.nsid);
        out.append(&mut b);
        let mut b = u64_to_le_bytes(self._rsvd);
        out.append(&mut b);
        let mut b = u64_to_le_bytes(self.mptr);
        out.append(&mut b);
        let mut b = u64_to_le_bytes(self.dptr1);
        out.append(&mut b);
        let mut b = u64_to_le_bytes(self.dptr2);
        out.append(&mut b);
        let mut b = u32_to_le_bytes(self.cdw10);
        out.append(&mut b);
        let mut b = u32_to_le_bytes(self.cdw11);
        out.append(&mut b);
        let mut b = u32_to_le_bytes(self.cdw12);
        out.append(&mut b);
        let mut b = u32_to_le_bytes(self.cdw13);
        out.append(&mut b);
        let mut b = u32_to_le_bytes(self.cdw14);
        out.append(&mut b);
        let mut b = u32_to_le_bytes(self.cdw15);
        out.append(&mut b);
        assert(out@ =~= submission_entry_bytes(*self));
        out
    }
}

/// `high * 2^16 + low` for a low half below 2^16.
fn pack16(high: u32, low: u32) -> (res: u32)
    requires
        high < 0x1_0000,
        low < 0x1_0000,
    ensures
        res == high * 0x1_0000 + low,
{
    let r: u32 = (high << 16u32) | low;
    assert(r == high * 0x1_0000 + low) by (bit_vector)
        requires
            high < 0x1_0000,
            low < 0x1_0000,
            r == (high << 16u32) | low,
    ;
    r
}

/// NVMe completion queue entry.
#[derive(Clone, Copy, Debug, Default, PartialEq, Eq, Structural)]
pub struct CompletionEntry {
    /// Command specific (DW0).
    pub dw0: u32,
    /// Reserved (DW1).
    pub dw1: u32,
    /// SQ head pointer (DW2 bits 15:0) and SQ ID (DW2 bits 31:16).
    pub sq_head_sqid: u32,
    /// Command ID (DW3 bits 15:0), phase tag (DW3 bit 16) and status (DW3 bits 31:17).
    pub cid_status: u32,
}

impl CompletionEntry {
    /// The phase tag of the entry.
    pub open spec fn phase_spec(&self) -> bool {
        (self.cid_status / 0x1_0000) % 2 == 1
    }

    /// The command ID of the entry.
    pub open spec fn cid_spec(&self) -> u16 {
        (self.cid_status % 0x1_0000) as u16
    }

    /// The status code of the entry.
    pub open spec fn status_spec(&self) -> u16 {
        ((self.cid_status / 0x2_0000) % 0x8000) as u16
    }

    /// The SQ head pointer of the entry.
    pub open spec fn sq_head_spec(&self) -> u16 {
        (self.sq_head_sqid % 0x1_0000) as u16
    }

    /// Returns the command ID.
    pub fn cid(&self) -> (res: u16)
        ensures
            res == self.cid_spec(),
            res == self.cid_status & 0xFFFF,
    {
        let v = self.cid_status;
        assert(v % 0x1_0000 == v & 0xFFFF) by (bit_vector);
        (self.cid_status % 0x1_0000) as u16
    }

    /// Returns the phase tag.
    pub fn phase(&self) -> (res: bool)
        ensures
            res == self.phase_spec(),
            res == ((self.cid_status >> 16u32) & 1 == 1),
    {
        let v = self.cid_status;
        assert(((v / 0x1_0000) % 2 == 1) == ((v >> 16u32) & 1 == 1)) by (bit_vector);
        (self.cid_status / 0x1_0000) % 2 == 1
    }

    /// Returns the status code.
    pub fn status(&self) -> (res: u16)
        ensures
            res == self.status_spec(),
            res == (self.cid_status >> 17u32) & 0x7FFF,
    {
        let v = self.cid_status;
        assert((v / 0x2_0000) % 0x8000 == (v >> 17u32) & 0x7FFF) by (bit_vector);
        ((self.cid_status / 0x2_0000) % 0x8000) as u16
    }

    /// Checks whether the command succeeded (status code zero).
    pub fn is_success(&self) -> (res: bool)
        ensures
            res == (self.status_spec() == 0),
            res == (self.cid_status >> 17u32 == 0),
    {
        let v = self.cid_status;
        assert(((v >> 17u32) & 0x7FFF == 0) == (v >> 17u32 == 0)) by (bit_vector);
        self.status() == 0
    }

    /// Returns the SQ head pointer.
    pub fn sq_head(&self) -> (res: u16)
        ensures
            res == self.sq_head_spec(),
    {
        (self.sq_head_sqid % 0x1_0000) as u16
    }

    /// Returns the SQ ID.
    pub fn sq_id(&self) -> (res: u16)
        ensures
            res == self.sq_head_sqid / 0x1_0000,
    {
        (self.sq_head_sqid / 0x1_0000) as u16
    }

    /// Reads a completion entry from its 16 little-endian bytes.
    pub fn from_bytes(bytes: &[u8]) -> (res: Self)
        requires
            bytes@.len() == COMPLETION_ENTRY_SIZE,
        ensures
            res.dw0 == spec_u32_from_le_bytes(bytes@.subrange(0, 4)),
            res.dw1 == spec_u32_from_le_bytes(bytes@.subrange(4, 8)),
            res.sq_head_sqid == spec_u32_from_le_bytes(bytes@.subrange(8, 12)),
            res.cid_status == spec_u32_from_le_bytes(bytes@.subrange(12, 16)),
    {
        CompletionEntry {
            dw0: u32_from_le_bytes(slice_subrange(bytes, 0, 4)),
            dw1: u32_from_le_bytes(slice_subrange(bytes, 4, 8)),
            sq_head_sqid: u32_from_le_bytes(slice_subrange(bytes, 8, 12)),
            cid_status: u32_from_le_bytes(slice_subrange(bytes, 12, 16)),
        }
    }
}

/// The fields of an entry built from given fields are those fields: the data pointers are PRP1 and PRP2 in that
/// order, and the controller reads them back from bytes 24 to 31 and 32 to 39 of the encoding.
pub proof fn lemma_command_fields(
    opcode: u8,
    cid: u16,
    nsid: u32,
    dptr1: u64,
    dptr2: u64,
    cdw10: u32,
    cdw11: u32,
    cdw12: u32,
)
    ensures
        ({
            let e = command_spec(opcode, cid, nsid, dptr1, dptr2, cdw10, cdw11, cdw12);
            &&& e.opcode == opcode && e.cid == cid && e.nsid == nsid
            &&& e.dptr1 == dptr1 && e.dptr2 == dptr2
            &&& e.cdw10 == cdw10 && e.cdw11 == cdw11 && e.cdw12 == cdw12
            &&& e.flags == 0 && e._rsvd == 0 && e.mptr == 0 && e.cdw13 == 0 && e.cdw14 == 0 && e.cdw15 == 0
            &&& spec_u64_from_le_bytes(submission_entry_bytes(e).subrange(24, 32)) == dptr1
            &&& spec_u64_from_le_bytes(submission_entry_bytes(e).subrange(32, 40)) == dptr2
        }),
{
    let e = command_spec(opcode, cid, nsid, dptr1, dptr2, cdw10, cdw11, cdw12);
    let b = submission_entry_bytes(e);
    let head = seq![e.opcode, e.flags] + spec_u16_to_le_bytes(e.cid) + spec_u32_to_le_bytes(e.nsid)
        + spec_u64_to_le_bytes(e._rsvd) + spec_u64_to_le_bytes(e.mptr);
    lemma_auto_spec_u64_to_from_le_bytes();
    lemma_auto_spec_u32_to_from_le_bytes();
    lemma_auto_spec_u16_to_from_le_bytes();
    assert(head.len() == 24);
    assert(b.subrange(24, 32) =~= spec_u64_to_le_bytes(dptr1));
    assert(b.subrange(32, 40) =~= spec_u64_to_le_bytes(dptr2));
}

/// The status of a completion entry is bits 31:17 of its last dword, the command identifier bits 15:0 and the
/// phase tag bit 16; an entry is a success exactly when no status bit is set.
pub proof fn lemma_completion_fields(e: CompletionEntry)
    ensures
        e.status_spec() == (e.cid_status >> 17u32) & 0x7FFF,
        e.cid_spec() == e.cid_status & 0xFFFF,
        e.phase_spec() == ((e.cid_status >> 16u32) & 1 == 1),
        (e.status_spec() == 0) == (e.cid_status >> 17u32 == 0),
        e.cid_status == (e.status_spec() as u32) * 0x2_0000 + (if e.phase_spec() { 0x1_0000u32 } else { 0u32 })
            + e.cid_spec() as u32,
{
    let v = e.cid_status;
    assert((v / 0x2_0000) % 0x8000 == (v >> 17u32) & 0x7FFF) by (bit_vector);
    assert(v % 0x1_0000 == v & 0xFFFF) by (bit_vector);
    assert(((v / 0x1_0000) % 2 == 1) == ((v >> 16u32) & 1 == 1)) by (bit_vector);
    assert(((v >> 17u32) & 0x7FFF == 0) == (v >> 17u32 == 0)) by (bit_vector);
    assert(v == ((v / 0x2_0000) % 0x8000) * 0x2_0000 + (if (v / 0x1_0000) % 2 == 1 { 0x1_0000u32 } else {
        0u32
    }) + v % 0x1_0000) by (bit_vector);
}

} // verus!
