//! Errors related to SFS manipulation.

use vstd::prelude::*;

use crate::fs::types::Timespec;
use crate::fs::sfs::index_area::EntryType;

verus! {

/// Enumeration of possible errors encountered with SFS manipulation.
#[derive(Debug, Clone, PartialEq, Eq)]
pub enum SfsError {
    /// A block size of 0 has been found in the super-block.
    BadBlockSize(u8),
    /// The checksum of the super-block does not match its content.
    BadChecksum { expected: u8, given: u8 },
    /// A data region is not possible (start after its end, outside of the data area, wrong length).
    BadDataRegion { region_start: u64, region_end: u64, length: u64 },
    /// The size of the index area is not a multiple of 64.
    BadIndexAreaSize(u64),
    /// The magic number of the super-block is not `SFS`.
    BadMagic([u8; 3]),
    /// The reserved bytes of the volume identifier entry are not zero.
    BadVolumeIdentifierEntry([u8; 3]),
    /// The given entry type cannot be turned into a file.
    EntryTypeNotFile(EntryType),
    /// The given bytes are not a valid name string.
    InvalidNameString(Vec<u8>),
    /// The entry at the given index does not contain a name string.
    NameStringExpected(u64),
    /// The filesystem does not contain a root directory.
    NoRoot,
    /// The given timespec cannot be represented by an SFS time stamp.
    TimeStampOutOfBounds(Timespec),
    /// An entry of an unexpected type has been found.
    WrongEntryType { expected: EntryType, given: EntryType },
}

} // verus!
