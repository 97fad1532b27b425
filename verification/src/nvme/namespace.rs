//! NVMe controller and namespace information, and the sizing of I/O transfers.

use vstd::prelude::*;
use vstd::arithmetic::power2::pow2;
use vstd::bytes::{spec_u32_from_le_bytes, spec_u64_from_le_bytes, u32_from_le_bytes, u64_from_le_bytes};
use vstd::slice::slice_subrange;

use crate::nvme::prp::NvmeError;

verus! {

/// Controller information (Identify Controller).
#[derive(Debug, Clone)]
pub struct ControllerInfo {
    /// Vendor ID.
    pub vendor_id: u16,
    /// Serial number.
    pub serial_number: [u8; 20],
    /// Model number.
    pub model_number: [u8; 40],
    /// Firmware revision.
    pub firmware_revision: [u8; 8],
    /// Maximum data transfer size, `None` when unlimited.
    pub max_transfer_size: Option<usize>,
    /// Number of namespaces.
    pub nn: u32,
}

/// Namespace information (Identify Namespace).
#[derive(Debug, Clone, Copy)]
pub struct NamespaceInfo {
    /// Namespace ID.
    pub nsid: u32,
    /// Size in logical blocks.
    pub size: u64,
    /// Capacity in bytes.
    pub capacity: u64,
    /// Logical block size in bytes.
    pub block_size: u32,
    /// Index of the formatted LBA format.
    pub formatted_lba_size: u8,
}

/// Index of the formatted LBA format in Identify Namespace data (low nibble of FLBAS, byte 26).
pub open spec fn lba_format_index(data: Seq<u8>) -> int {
    (data[26] % 16) as int
}

/// The LBA format descriptor in use in Identify Namespace data.
pub open spec fn lba_format(data: Seq<u8>) -> u32 {
    let off = 128 + lba_format_index(data) * 4;
    spec_u32_from_le_bytes(data.subrange(off, off + 4))
}

/// LBA data size exponent of the LBA format in use (bits 23:16 of the descriptor).
pub open spec fn lba_data_shift(data: Seq<u8>) -> int {
    ((lba_format(data) / 0x1_0000) % 256) as int
}

/// Whether Identify Namespace data can be interpreted: the LBA formats are present, the block size fits on 32
/// bits and the capacity in bytes on 64 bits.
pub open spec fn identify_namespace_readable(data: Seq<u8>) -> bool {
    &&& data.len() >= 192
    &&& lba_data_shift(data) < 32
    &&& spec_u64_from_le_bytes(data.subrange(8, 16)) * pow2(lba_data_shift(data) as nat) <= u64::MAX
}

impl NamespaceInfo {
    /// Interprets the data returned by an Identify Namespace command: size (bytes 0-7), capacity in blocks
    /// (bytes 8-15), and the block size `2^LBADS` of the LBA format selected by FLBAS.
    pub fn from_identify(nsid: u32, data: &[u8]) -> (res: Self)
        requires
            identify_namespace_readable(data@),
        ensures
            res.nsid == nsid,
            res.size == spec_u64_from_le_bytes(data@.subrange(0, 8)),
            res.block_size == pow2(lba_data_shift(data@) as nat),
            res.capacity == spec_u64_from_le_bytes(data@.subrange(8, 16)) * pow2(lba_data_shift(data@) as nat),
            res.formatted_lba_size == lba_format_index(data@),
    {
        let size = u64_from_le_bytes(slice_subrange(data, 0, 8));
        let ncap = u64_from_le_bytes(slice_subrange(data, 8, 16));
        let flbas = data[26];
        let index: u8 = flbas % 16;
        let off: usize = 128 + (index as usize) * 4;
        let format = u32_from_le_bytes(slice_subrange(data, off, off + 4));
        let shift: u32 = (format / 0x1_0000) % 256;
        proof {
            vstd::bits::lemma_u32_pow2_no_overflow(shift as nat);
            vstd::bits::lemma_u32_shl_is_mul(1, shift);
        }
        let block_size: u32 = 1u32 << shift;
        NamespaceInfo { nsid, size, capacity: ncap * (block_size as u64), block_size, formatted_lba_size: index }
    }

    /// Number of bytes transferred by `block_count` blocks, checked against the size of the buffer: fails with
    /// [`NvmeError::InvalidArgument`] when the buffer is too small.
    pub fn transfer_len(&self, block_count: u16, buffer_size: usize) -> (res: Result<usize, NvmeError>)
        requires
            block_count * self.block_size <= usize::MAX,
        ensures
            buffer_size >= block_count * self.block_size ==> res == Ok::<usize, NvmeError>(
                (block_count * self.block_size) as usize,
            ),
            buffer_size < block_count * self.block_size ==> res == Err::<usize, NvmeError>(NvmeError::InvalidArgument),
    {
        let data_len = (block_count as usize) * (self.block_size as usize);
        if buffer_size < data_len {
            Err(NvmeError::InvalidArgument)
        } else {
            Ok(data_len)
        }
    }

    /// Number of blocks needed to transfer `len` bytes, which must fit in a 16-bit block count: fails with
    /// [`NvmeError::InvalidArgument`] otherwise.
    pub fn blocks_for_len(&self, len: usize) -> (res: Result<u16, NvmeError>)
        requires
            self.block_size > 0,
            len + self.block_size - 1 <= usize::MAX,
        ensures
            (len + self.block_size - 1) / (self.block_size as int) <= u16::MAX ==> res == Ok::<u16, NvmeError>(
                ((len + self.block_size - 1) / (self.block_size as int)) as u16,
            ),
            (len + self.block_size - 1) / (self.block_size as int) > u16::MAX ==> res == Err::<u16, NvmeError>(
                NvmeError::InvalidArgument,
            ),
    {
        let bs = self.block_size as usize;
        let count = (len + (bs - 1)) / bs;
        if count > u16::MAX as usize {
            Err(NvmeError::InvalidArgument)
        } else {
            Ok(count as u16)
        }
    }
}

/// Depth of the admin queue: at most 64 entries, and no more than the controller supports.
pub fn admin_queue_depth(max_queue_entries: u16) -> (res: u16)
    ensures
        res == (if max_queue_entries < 64 { max_queue_entries } else { 64 }),
{
    if max_queue_entries < 64 {
        max_queue_entries
    } else {
        64
    }
}

} // verus!
