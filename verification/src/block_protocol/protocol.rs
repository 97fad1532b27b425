//! Status codes and the interface of a block device.

use vstd::prelude::*;

verus! {

/// Status of a successful block request.
pub const BLOCK_SUCCESS: i32 = 0;

/// Status of a block request that failed on the device.
pub const BLOCK_ERR_IO: i32 = 1;

/// A device read and written by byte offset.
pub trait BlockDevice {
    /// Error of a failed transfer.
    type Error;

    /// Reads `buf.len()` bytes from byte `start_byte` on.
    fn read_block(&self, start_byte: u64, buf: &mut [u8]) -> Result<(), Self::Error>;

    /// Writes `buf` from byte `start_byte` on.
    fn write_block(&self, start_byte: u64, buf: &[u8]) -> Result<(), Self::Error>;

    /// Size of the device in bytes.
    fn size(&self) -> usize;
}

} // verus!
