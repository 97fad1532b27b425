//! Structures of the SFS Index Area: 64-byte entries describing the volume, the directories and the files.

use vstd::prelude::*;
use vstd::bytes::{spec_u64_from_le_bytes, u64_from_le_bytes};
use vstd::slice::slice_subrange;

use crate::error::{Error, FsError};
use crate::fs::sfs::error::SfsError;
use crate::fs::sfs::name_string::{NameString, acceptable_name, is_invalid_name_error, nul_cut};
use crate::fs::sfs::super_block::{SuperBlock, bytes_per_block_spec, u64_to_i64, u64_to_i64_spec};
use crate::fs::sfs::time_stamp::TimeStamp;

verus! {

/// Size in bytes of an entry in the Index Area.
pub const ENTRY_SIZE: u64 = 64;

/// Types of entries of the Index Area.
///
/// Any entry whose type byte is not listed below is considered as an [`Unused`](EntryType::Unused) entry.
#[derive(Debug, Clone, Copy, PartialEq, Eq, Structural)]
pub enum EntryType {
    /// The volume identifier entry (type byte `0x01`).
    VolumeIdentifier,
    /// The starting marker entry (type byte `0x02`).
    StartingMarker,
    /// An unused entry (type byte `0x10`).
    Unused,
    /// A directory entry (type byte `0x11`).
    Directory,
    /// A file entry (type byte `0x12`).
    File,
    /// An unusable entry (type byte `0x18`).
    Unusable,
    /// A deleted directory entry (type byte `0x19`).
    DeletedDirectory,
    /// A deleted file entry (type byte `0x1A`).
    DeletedFile,
    /// A continuation entry, whose type byte is its first name byte, between `0x20` and `0xFF`.
    Continuation(u8),
}

/// The entry type denoted by a type byte.
pub open spec fn entry_type_of(value: u8) -> EntryType {
    if value == 0x01 {
        EntryType::VolumeIdentifier
    } else if value == 0x02 {
        EntryType::StartingMarker
    } else if value == 0x11 {
        EntryType::Directory
    } else if value == 0x12 {
        EntryType::File
    } else if value == 0x18 {
        EntryType::Unusable
    } else if value == 0x19 {
        EntryType::DeletedDirectory
    } else if value == 0x1A {
        EntryType::DeletedFile
    } else if value >= 0x20 {
        EntryType::Continuation(value)
    } else {
        EntryType::Unused
    }
}

/// The type byte of an entry type.
pub open spec fn entry_type_byte(value: EntryType) -> u8 {
    match value {
        EntryType::VolumeIdentifier => 0x01,
        EntryType::StartingMarker => 0x02,
        EntryType::Unused => 0x10,
        EntryType::Directory => 0x11,
        EntryType::File => 0x12,
        EntryType::Unusable => 0x18,
        EntryType::DeletedDirectory => 0x19,
        EntryType::DeletedFile => 0x1A,
        EntryType::Continuation(i) => i,
    }
}

impl EntryType {
    /// Returns the entry type denoted by the given type byte.
    pub fn from_byte(value: u8) -> (res: EntryType)
        ensures
            res == entry_type_of(value),
    {
        if value == 0x01 {
            EntryType::VolumeIdentifier
        } else if value == 0x02 {
            EntryType::StartingMarker
        } else if value == 0x11 {
            EntryType::Directory
        } else if value == 0x12 {
            EntryType::File
        } else if value == 0x18 {
            EntryType::Unusable
        } else if value == 0x19 {
            EntryType::DeletedDirectory
        } else if value == 0x1A {
            EntryType::DeletedFile
        } else if value >= 0x20 {
            EntryType::Continuation(value)
        } else {
            EntryType::Unused
        }
    }

    /// Returns the type byte of this entry type.
    pub fn to_byte(self) -> (res: u8)
        ensures
            res == entry_type_byte(self),
    {
        match self {
            EntryType::VolumeIdentifier => 0x01,
            EntryType::StartingMarker => 0x02,
            EntryType::Unused => 0x10,
            EntryType::Directory => 0x11,
            EntryType::File => 0x12,
            EntryType::Unusable => 0x18,
            EntryType::DeletedDirectory => 0x19,
            EntryType::DeletedFile => 0x1A,
            EntryType::Continuation(i) => i,
        }
    }
}

impl From<u8> for EntryType {
    fn from(value: u8) -> (res: EntryType) {
        EntryType::from_byte(value)
    }
}

impl vstd::std_specs::convert::FromSpecImpl<u8> for EntryType {
    open spec fn obeys_from_spec() -> bool {
        true
    }

    open spec fn from_spec(v: u8) -> EntryType {
        entry_type_of(v)
    }
}

impl From<EntryType> for u8 {
    fn from(value: EntryType) -> (res: u8) {
        value.to_byte()
    }
}

impl vstd::std_specs::convert::FromSpecImpl<EntryType> for u8 {
    open spec fn obeys_from_spec() -> bool {
        true
    }

    open spec fn from_spec(v: EntryType) -> u8 {
        entry_type_byte(v)
    }
}

/// Whether an entry type is one that a type byte can denote (a continuation starts at `0x20`).
pub open spec fn entry_type_is_valid(t: EntryType) -> bool {
    t matches EntryType::Continuation(i) ==> i >= 0x20
}

/// Reading back the type byte of a valid entry type gives the same entry type.
pub proof fn lemma_entry_type_byte_roundtrip(t: EntryType)
    requires
        entry_type_is_valid(t),
    ensures
        entry_type_of(entry_type_byte(t)) == t,
{
}

/// The type byte of the entry type of a byte is that byte, except for the bytes that denote no entry type,
/// which are read as the unused type `0x10`.
pub proof fn lemma_byte_entry_type_roundtrip(b: u8)
    ensures
        entry_type_byte(entry_type_of(b)) == (if entry_type_of(b) == EntryType::Unused { 0x10 } else { b }),
        entry_type_is_valid(entry_type_of(b)),
{
}

/// The little-endian 64-bit word at `off` in `b`.
pub open spec fn le64(b: Seq<u8>, off: int) -> u64 {
    spec_u64_from_le_bytes(b.subrange(off, off + 8))
}

/// The little-endian two's complement 64-bit integer at `off` in `b`.
pub open spec fn lei64(b: Seq<u8>, off: int) -> i64 {
    u64_to_i64_spec(le64(b, off))
}

/// Reads the little-endian 64-bit word at `off` in an entry.
pub(crate) fn read_u64_at(bytes: &[u8; 64], off: usize) -> (res: u64)
    requires
        off + 8 <= 64,
    ensures
        res == le64(bytes@, off as int),
{
    u64_from_le_bytes(slice_subrange(bytes.as_slice(), off, off + 8))
}

/// Reads the little-endian two's complement 64-bit integer at `off` in an entry.
fn read_i64_at(bytes: &[u8; 64], off: usize) -> (res: i64)
    requires
        off + 8 <= 64,
    ensures
        res == lei64(bytes@, off as int),
{
    u64_to_i64(read_u64_at(bytes, off))
}

/// Copies the `N` bytes at `off` in an entry.
fn sub_array<const N: usize>(bytes: &[u8; 64], off: usize) -> (res: [u8; N])
    requires
        off + N <= 64,
    ensures
        res@ == bytes@.subrange(off as int, off + N),
{
    let mut res = [0u8; N];
    let mut i: usize = 0;
    while i < N
        invariant
            off + N <= 64,
            i <= N,
            res@.len() == N,
            forall|j: int| 0 <= j < i ==> res@[j] == bytes@[off + j],
        decreases N - i,
    {
        res[i] = bytes[off + i];
        i = i + 1;
    }
    assert(res@ =~= bytes@.subrange(off as int, off + N));
    res
}

/// The error reporting an entry of type byte `t` where an entry of type `expected` was expected.
pub open spec fn wrong_type(expected: EntryType, t: u8) -> Error<SfsError> {
    Error::Fs(FsError::Implementation(SfsError::WrongEntryType { expected, given: entry_type_of(t) }))
}

/// The error reporting an impossible data region.
pub open spec fn bad_region(start: u64, end: u64, length: u64) -> Error<SfsError> {
    Error::Fs(FsError::Implementation(SfsError::BadDataRegion { region_start: start, region_end: end, length }))
}

/// Whether a name field holds a valid name string (up to its first `<NUL>`).
pub open spec fn name_field_ok(field: Seq<u8>) -> bool {
    acceptable_name(nul_cut(field))
}

/// Whether `err` is the error of a name field that does not hold a valid name string.
pub open spec fn name_field_error(field: Seq<u8>, err: Error<SfsError>) -> bool {
    is_invalid_name_error(err, nul_cut(field))
}

/// Number of blocks needed to hold `length` bytes.
pub open spec fn blocks_needed(sb: SuperBlock, length: u64) -> int {
    if length == 0 { 0 } else { (length - 1) / (bytes_per_block_spec(sb.block_size) as int) + 1 }
}

/// Whether a block lies in the data area.
pub open spec fn in_data_area(sb: SuperBlock, block: u64) -> bool {
    1 <= block && sb.rsvd_blocks <= block && block < sb.rsvd_blocks + sb.data_size
}

/// Whether the data region of a file entry is valid: either the file is empty and uses no block (start, end and
/// length all zero), or the region starts before it ends, has exactly the blocks needed for the length, and both
/// its ends lie in the data area.
pub open spec fn file_region_valid(sb: SuperBlock, start: u64, end: u64, length: u64) -> bool {
    ||| (start == 0 && end == 0 && length == 0)
    ||| (start < end && end - start == blocks_needed(sb, length) && in_data_area(sb, start) && in_data_area(sb, end))
}

/// Whether the data region of an unusable entry is valid: it starts no later than it ends and both its ends lie
/// in the data area.
pub open spec fn unusable_region_valid(sb: SuperBlock, start: u64, end: u64) -> bool {
    start <= end && in_data_area(sb, start) && in_data_area(sb, end)
}

/// Checks the data region of a file (or deleted file) entry.
fn check_file_region(sb: &SuperBlock, start: u64, end: u64, length: u64) -> (res: bool)
    requires
        length != 0 ==> sb.has_small_blocks(),
    ensures
        res == file_region_valid(*sb, start, end, length),
{
    let necessary_blocks = if length == 0 {
        0
    } else {
        let bpb = sb.bytes_per_block() as u64;
        ((length - 1) / bpb) + 1
    };
    ((start == 0) && (end == 0) && (length == 0)) || (start < end && end - start == necessary_blocks
        && sb.is_block_in_data_area(start) && sb.is_block_in_data_area(end))
}

/// Volume Identifier Entry in the Index Area, the first entry of the Index Area (at the end of the device).
#[derive(Debug, Clone, Copy)]
pub struct VolumeIdentifierEntry {
    /// Entry type; must be `0x01`.
    pub entry_type: u8,
    /// Reserved; must be zero.
    pub reserved: [u8; 3],
    /// Time stamp of the first formatting of the device.
    pub format_time: i64,
    /// Volume name, including the final `<NUL>`.
    pub volume_name: [u8; 52],
}

/// Whether the fields of a volume identifier entry are well-formed.
pub open spec fn volume_valid(t: u8, reserved: Seq<u8>, name: Seq<u8>) -> bool {
    entry_type_of(t) == EntryType::VolumeIdentifier && name_field_ok(name) && reserved == seq![0u8, 0u8, 0u8]
}

/// Whether `err` is the error reported on the (ill-formed) fields of a volume identifier entry: the first failing
/// check among the type, the name and the reserved bytes.
pub open spec fn volume_error(t: u8, reserved: [u8; 3], name: Seq<u8>, err: Error<SfsError>) -> bool {
    if entry_type_of(t) != EntryType::VolumeIdentifier {
        err == wrong_type(EntryType::VolumeIdentifier, t)
    } else if !name_field_ok(name) {
        name_field_error(name, err)
    } else {
        err == Error::<SfsError>::Fs(FsError::Implementation(SfsError::BadVolumeIdentifierEntry(reserved)))
    }
}

impl VolumeIdentifierEntry {
    /// Parses the volume name into a [`NameString`].
    pub fn parse_volume_name(&self) -> (res: Result<NameString, Error<SfsError>>)
        ensures
            name_field_ok(self.volume_name@) ==> (res matches Ok(n) && n@ == nul_cut(self.volume_name@).drop_last()),
            !name_field_ok(self.volume_name@) ==> (res matches Err(e) && name_field_error(self.volume_name@, e)),
    {
        NameString::new_from_start(self.volume_name.as_slice())
    }

    /// Parses the format time into a [`TimeStamp`].
    pub fn parse_format_time(&self) -> (res: TimeStamp)
        ensures
            res.0 == self.format_time,
    {
        TimeStamp(self.format_time)
    }

    /// Checks the validity of the fields of the entry.
    pub fn validity_check(&self, super_block: &SuperBlock) -> (res: Result<(), Error<SfsError>>)
        ensures
            res is Ok <==> volume_valid(self.entry_type, self.reserved@, self.volume_name@),
            res matches Err(e) ==> volume_error(self.entry_type, self.reserved, self.volume_name@, e),
    {
        if !matches!(EntryType::from_byte(self.entry_type), EntryType::VolumeIdentifier) {
            return Err(
                Error::Fs(
                    FsError::Implementation(
                        SfsError::WrongEntryType {
                            expected: EntryType::VolumeIdentifier,
                            given: EntryType::from_byte(self.entry_type),
                        },
                    ),
                ),
            );
        }
        match self.parse_volume_name() {
            Ok(_) => {},
            Err(e) => return Err(e),
        }
        if self.reserved[0] == 0 && self.reserved[1] == 0 && self.reserved[2] == 0 {
            assert(self.reserved@ =~= seq![0u8, 0u8, 0u8]);
            Ok(())
        } else {
            assert(self.reserved@ != seq![0u8, 0u8, 0u8]) by {
                if self.reserved@ == seq![0u8, 0u8, 0u8] {
                    assert(self.reserved@[0] == 0 && self.reserved@[1] == 0 && self.reserved@[2] == 0);
                }
            }
            Err(Error::Fs(FsError::Implementation(SfsError::BadVolumeIdentifierEntry(self.reserved))))
        }
    }

    /// Parses the 64 bytes of an entry of the Index Area and ensures that every field is well-formed.
    pub fn parse(bytes: [u8; 64], super_block: &SuperBlock) -> (res: Result<Self, Error<SfsError>>)
        ensures
            res is Ok <==> volume_valid(bytes@[0], bytes@.subrange(1, 4), bytes@.subrange(12, 64)),
            res matches Ok(e) ==> e.entry_type == bytes@[0] && e.reserved@ == bytes@.subrange(1, 4)
                && e.format_time == lei64(bytes@, 4) && e.volume_name@ == bytes@.subrange(12, 64),
            res matches Err(err) ==> (exists|r: [u8; 3]|
                r@ == bytes@.subrange(1, 4) && #[trigger] volume_error(bytes@[0], r, bytes@.subrange(12, 64), err)),
    {
        let entry = VolumeIdentifierEntry {
            entry_type: bytes[0],
            reserved: sub_array::<3>(&bytes, 1),
            format_time: read_i64_at(&bytes, 4),
            volume_name: sub_array::<52>(&bytes, 12),
        };
        match entry.validity_check(super_block) {
            Ok(()) => Ok(entry),
            Err(e) => Err(e),
        }
    }
}


/// Starting Marker Entry in the Index Area: it marks the beginning of the index area, and no entry lies closer to
/// the start of the media.
#[derive(Debug, Clone, Copy)]
pub struct StartingMarkerEntry {
    /// Entry type; must be `0x02`.
    pub entry_type: u8,
    /// Unused/reserved.
    pub reserved: [u8; 63],
}

impl StartingMarkerEntry {
    /// Checks the validity of the fields of the entry: only its type is constrained.
    pub fn validity_check(&self, super_block: &SuperBlock) -> (res: Result<(), Error<SfsError>>)
        ensures
            entry_type_of(self.entry_type) == EntryType::StartingMarker ==> res is Ok,
            entry_type_of(self.entry_type) != EntryType::StartingMarker ==> res == Err::<(), Error<SfsError>>(
                wrong_type(EntryType::StartingMarker, self.entry_type),
            ),
    {
        if matches!(EntryType::from_byte(self.entry_type), EntryType::StartingMarker) {
            Ok(())
        } else {
            Err(
                Error::Fs(
                    FsError::Implementation(
                        SfsError::WrongEntryType {
                            expected: EntryType::StartingMarker,
                            given: EntryType::from_byte(self.entry_type),
                        },
                    ),
                ),
            )
        }
    }

    /// Parses the 64 bytes of an entry of the Index Area and ensures that every field is well-formed.
    pub fn parse(bytes: [u8; 64], super_block: &SuperBlock) -> (res: Result<Self, Error<SfsError>>)
        ensures
            entry_type_of(bytes@[0]) == EntryType::StartingMarker ==> (res matches Ok(e) && e.entry_type == bytes@[0]
                && e.reserved@ == bytes@.subrange(1, 64)),
            entry_type_of(bytes@[0]) != EntryType::StartingMarker ==> res == Err::<Self, Error<SfsError>>(
                wrong_type(EntryType::StartingMarker, bytes@[0]),
            ),
    {
        let entry = StartingMarkerEntry { entry_type: bytes[0], reserved: sub_array::<63>(&bytes, 1) };
        match entry.validity_check(super_block) {
            Ok(()) => Ok(entry),
            Err(e) => Err(e),
        }
    }
}

/// Unused Entry in the Index Area.
#[derive(Debug, Clone, Copy)]
pub struct UnusedEntry {
    /// Entry type; `0x10` when created, but every type byte that denotes no entry type counts as unused.
    pub entry_type: u8,
    /// Unused/reserved.
    pub reserved: [u8; 63],
}

impl UnusedEntry {
    /// Checks the validity of the fields of the entry: only its type is constrained.
    pub fn validity_check(&self, super_block: &SuperBlock) -> (res: Result<(), Error<SfsError>>)
        ensures
            entry_type_of(self.entry_type) == EntryType::Unused ==> res is Ok,
            entry_type_of(self.entry_type) != EntryType::Unused ==> res == Err::<(), Error<SfsError>>(
                wrong_type(EntryType::Unused, self.entry_type),
            ),
    {
        if matches!(EntryType::from_byte(self.entry_type), EntryType::Unused) {
            Ok(())
        } else {
            Err(
                Error::Fs(
                    FsError::Implementation(
                        SfsError::WrongEntryType {
                            expected: EntryType::Unused,
                            given: EntryType::from_byte(self.entry_type),
                        },
                    ),
                ),
            )
        }
    }

    /// Parses the 64 bytes of an entry of the Index Area and ensures that every field is well-formed.
    pub fn parse(bytes: [u8; 64], super_block: &SuperBlock) -> (res: Result<Self, Error<SfsError>>)
        ensures
            entry_type_of(bytes@[0]) == EntryType::Unused ==> (res matches Ok(e) && e.entry_type == bytes@[0]
                && e.reserved@ == bytes@.subrange(1, 64)),
            entry_type_of(bytes@[0]) != EntryType::Unused ==> res == Err::<Self, Error<SfsError>>(
                wrong_type(EntryType::Unused, bytes@[0]),
            ),
    {
        let entry = UnusedEntry { entry_type: bytes[0], reserved: sub_array::<63>(&bytes, 1) };
        match entry.validity_check(super_block) {
            Ok(()) => Ok(entry),
            Err(e) => Err(e),
        }
    }
}

/// Directory Entry representing a directory of the filesystem.
#[derive(Debug, Clone, Copy)]
pub struct DirectoryEntry {
    /// Entry type; must be `0x11`.
    pub entry_type: u8,
    /// Number of continuation entries following this entry.
    pub continuation_nb: u8,
    /// Time stamp of the last modification of the directory.
    pub last_modification_time: i64,
    /// Full path of the directory (without initial `/`), ending with `<NUL>`.
    pub path: [u8; 54],
}

impl DirectoryEntry {
    /// Parses the last modification time into a [`TimeStamp`].
    pub fn parse_last_modification_time(&self) -> (res: TimeStamp)
        ensures
            res.0 == self.last_modification_time,
    {
        TimeStamp(self.last_modification_time)
    }

    /// Parses the path field into a [`NameString`]; the continuation entries are not taken into account.
    pub fn parse_path(&self) -> (res: Result<NameString, Error<SfsError>>)
        ensures
            name_field_ok(self.path@) ==> (res matches Ok(n) && n@ == nul_cut(self.path@).drop_last()),
            !name_field_ok(self.path@) ==> (res matches Err(e) && name_field_error(self.path@, e)),
    {
        NameString::new_from_start(self.path.as_slice())
    }

    /// Checks the validity of the fields of the entry: its type, then its path.
    pub fn validity_check(&self, super_block: &SuperBlock) -> (res: Result<(), Error<SfsError>>)
        ensures
            res is Ok <==> entry_type_of(self.entry_type) == EntryType::Directory && name_field_ok(self.path@),
            entry_type_of(self.entry_type) != EntryType::Directory ==> res == Err::<(), Error<SfsError>>(
                wrong_type(EntryType::Directory, self.entry_type),
            ),
            entry_type_of(self.entry_type) == EntryType::Directory && !name_field_ok(self.path@) ==> (res matches Err(
                e,
            ) && name_field_error(self.path@, e)),
    {
        if !matches!(EntryType::from_byte(self.entry_type), EntryType::Directory) {
            return Err(
                Error::Fs(
                    FsError::Implementation(
                        SfsError::WrongEntryType {
                            expected: EntryType::Directory,
                            given: EntryType::from_byte(self.entry_type),
                        },
                    ),
                ),
            );
        }
        match self.parse_path() {
            Ok(_) => Ok(()),
            Err(e) => Err(e),
        }
    }

    /// Parses the 64 bytes of an entry of the Index Area and ensures that every field is well-formed.
    pub fn parse(bytes: [u8; 64], super_block: &SuperBlock) -> (res: Result<Self, Error<SfsError>>)
        ensures
            res is Ok <==> entry_type_of(bytes@[0]) == EntryType::Directory && name_field_ok(bytes@.subrange(10, 64)),
            res matches Ok(e) ==> e.entry_type == bytes@[0] && e.continuation_nb == bytes@[1]
                && e.last_modification_time == lei64(bytes@, 2) && e.path@ == bytes@.subrange(10, 64),
            entry_type_of(bytes@[0]) != EntryType::Directory ==> res == Err::<Self, Error<SfsError>>(
                wrong_type(EntryType::Directory, bytes@[0]),
            ),
            entry_type_of(bytes@[0]) == EntryType::Directory && !name_field_ok(bytes@.subrange(10, 64)) ==> (res matches Err(
                e,
            ) && name_field_error(bytes@.subrange(10, 64), e)),
    {
        let entry = DirectoryEntry {
            entry_type: bytes[0],
            continuation_nb: bytes[1],
            last_modification_time: read_i64_at(&bytes, 2),
            path: sub_array::<54>(&bytes, 10),
        };
        match entry.validity_check(super_block) {
            Ok(()) => Ok(entry),
            Err(e) => Err(e),
        }
    }
}

/// Deleted Directory Entry: a directory entry whose type byte was changed to mark it deleted.
#[derive(Debug, Clone, Copy)]
pub struct DeletedDirectoryEntry {
    /// Entry type; must be `0x19`.
    pub entry_type: u8,
    /// Number of continuation entries following this entry.
    pub continuation_nb: u8,
    /// Time stamp of the last modification of the directory.
    pub last_modification_time: i64,
    /// Full path of the directory (without initial `/`), ending with `<NUL>`.
    pub path: [u8; 54],
}

impl DeletedDirectoryEntry {
    /// Parses the last modification time into a [`TimeStamp`].
    pub fn parse_last_modification_time(&self) -> (res: TimeStamp)
        ensures
            res.0 == self.last_modification_time,
    {
        TimeStamp(self.last_modification_time)
    }

    /// Parses the path field into a [`NameString`]; the continuation entries are not taken into account.
    pub fn parse_path(&self) -> (res: Result<NameString, Error<SfsError>>)
        ensures
            name_field_ok(self.path@) ==> (res matches Ok(n) && n@ == nul_cut(self.path@).drop_last()),
            !name_field_ok(self.path@) ==> (res matches Err(e) && name_field_error(self.path@, e)),
    {
        NameString::new_from_start(self.path.as_slice())
    }

    /// Checks the validity of the fields of the entry: its type, then its path.
    pub fn validity_check(&self, super_block: &SuperBlock) -> (res: Result<(), Error<SfsError>>)
        ensures
            res is Ok <==> entry_type_of(self.entry_type) == EntryType::DeletedDirectory && name_field_ok(self.path@),
            entry_type_of(self.entry_type) != EntryType::DeletedDirectory ==> res == Err::<(), Error<SfsError>>(
                wrong_type(EntryType::DeletedDirectory, self.entry_type),
            ),
            entry_type_of(self.entry_type) == EntryType::DeletedDirectory && !name_field_ok(self.path@) ==> (res matches Err(
                e,
            ) && name_field_error(self.path@, e)),
    {
        if !matches!(EntryType::from_byte(self.entry_type), EntryType::DeletedDirectory) {
            return Err(
                Error::Fs(
                    FsError::Implementation(
                        SfsError::WrongEntryType {
                            expected: EntryType::DeletedDirectory,
                            given: EntryType::from_byte(self.entry_type),
                        },
                    ),
                ),
            );
        }
        match self.parse_path() {
            Ok(_) => Ok(()),
            Err(e) => Err(e),
        }
    }

    /// Parses the 64 bytes of an entry of the Index Area and ensures that every field is well-formed.
    pub fn parse(bytes: [u8; 64], super_block: &SuperBlock) -> (res: Result<Self, Error<SfsError>>)
        ensures
            res is Ok <==> entry_type_of(bytes@[0]) == EntryType::DeletedDirectory && name_field_ok(bytes@.subrange(10, 64)),
            res matches Ok(e) ==> e.entry_type == bytes@[0] && e.continuation_nb == bytes@[1]
                && e.last_modification_time == lei64(bytes@, 2) && e.path@ == bytes@.subrange(10, 64),
            entry_type_of(bytes@[0]) != EntryType::DeletedDirectory ==> res == Err::<Self, Error<SfsError>>(
                wrong_type(EntryType::DeletedDirectory, bytes@[0]),
            ),
            entry_type_of(bytes@[0]) == EntryType::DeletedDirectory && !name_field_ok(bytes@.subrange(10, 64)) ==> (res matches Err(
                e,
            ) && name_field_error(bytes@.subrange(10, 64), e)),
    {
        let entry = DeletedDirectoryEntry {
            entry_type: bytes[0],
            continuation_nb: bytes[1],
            last_modification_time: read_i64_at(&bytes, 2),
            path: sub_array::<54>(&bytes, 10),
        };
        match entry.validity_check(super_block) {
            Ok(()) => Ok(entry),
            Err(e) => Err(e),
        }
    }
}

/// File Entry representing a regular file of the filesystem.
#[derive(Debug, Clone, Copy)]
pub struct FileEntry {
    /// Entry type; must be `0x12`.
    pub entry_type: u8,
    /// Number of continuation entries following this entry.
    pub continuation_nb: u8,
    /// Time stamp of the last modification of the file.
    pub last_modification_time: i64,
    /// Starting block of the region of the Data Area holding the file's content.
    pub data_starting_block: u64,
    /// Ending block (excluded) of the region of the Data Area holding the file's content.
    pub data_ending_block: u64,
    /// File length in bytes.
    pub length: u64,
    /// Full path of the file (without initial `/`), ending with `<NUL>`.
    pub path: [u8; 30],
}

/// Whether the fields of a file entry of the given kind are well-formed.
pub open spec fn fileentry_valid(sb: SuperBlock, t: u8, path: Seq<u8>, start: u64, end: u64, length: u64) -> bool {
    entry_type_of(t) == EntryType::File && name_field_ok(path) && file_region_valid(sb, start, end, length)
}

/// Whether `err` is the error reported on the (ill-formed) fields: the first failing check among the type, the
/// path and the data region.
pub open spec fn fileentry_error(
    sb: SuperBlock,
    t: u8,
    path: Seq<u8>,
    start: u64,
    end: u64,
    length: u64,
    err: Error<SfsError>,
) -> bool {
    if entry_type_of(t) != EntryType::File {
        err == wrong_type(EntryType::File, t)
    } else if !name_field_ok(path) {
        name_field_error(path, err)
    } else {
        err == bad_region(start, end, length)
    }
}

impl FileEntry {
    /// Parses the last modification time into a [`TimeStamp`].
    pub fn parse_last_modification_time(&self) -> (res: TimeStamp)
        ensures
            res.0 == self.last_modification_time,
    {
        TimeStamp(self.last_modification_time)
    }

    /// Parses the path field into a [`NameString`]; the continuation entries are not taken into account.
    pub fn parse_path(&self) -> (res: Result<NameString, Error<SfsError>>)
        ensures
            name_field_ok(self.path@) ==> (res matches Ok(n) && n@ == nul_cut(self.path@).drop_last()),
            !name_field_ok(self.path@) ==> (res matches Err(e) && name_field_error(self.path@, e)),
    {
        NameString::new_from_start(self.path.as_slice())
    }

    /// Checks whether the data region of this entry is valid: the region starts before it ends, both ends lie in
    /// the data area, and the number of blocks is exactly the one needed for the length; or the file is empty
    /// and uses no block (starting block, ending block and length all zero).
    pub fn is_data_region_valid(&self, super_block: &SuperBlock) -> (res: bool)
        requires
            self.length != 0 ==> super_block.has_small_blocks(),
        ensures
            res == file_region_valid(*super_block, self.data_starting_block, self.data_ending_block, self.length),
    {
        check_file_region(super_block, self.data_starting_block, self.data_ending_block, self.length)
    }

    /// Checks the validity of the fields of the entry: its type, then its path, then its data region.
    pub fn validity_check(&self, super_block: &SuperBlock) -> (res: Result<(), Error<SfsError>>)
        requires
            self.length != 0 ==> super_block.has_small_blocks(),
        ensures
            res is Ok <==> fileentry_valid(
                *super_block,
                self.entry_type,
                self.path@,
                self.data_starting_block,
                self.data_ending_block,
                self.length,
            ),
            res matches Err(e) ==> fileentry_error(
                *super_block,
                self.entry_type,
                self.path@,
                self.data_starting_block,
                self.data_ending_block,
                self.length,
                e,
            ),
    {
        if !matches!(EntryType::from_byte(self.entry_type), EntryType::File) {
            return Err(
                Error::Fs(
                    FsError::Implementation(
                        SfsError::WrongEntryType {
                            expected: EntryType::File,
                            given: EntryType::from_byte(self.entry_type),
                        },
                    ),
                ),
            );
        }
        match self.parse_path() {
            Ok(_) => {},
            Err(e) => return Err(e),
        }
        if self.is_data_region_valid(super_block) {
            Ok(())
        } else {
            Err(
                Error::Fs(
                    FsError::Implementation(
                        SfsError::BadDataRegion {
                            region_start: self.data_starting_block,
                            region_end: self.data_ending_block,
                            length: self.length,
                        },
                    ),
                ),
            )
        }
    }

    /// Parses the 64 bytes of an entry of the Index Area and ensures that every field is well-formed.
    pub fn parse(bytes: [u8; 64], super_block: &SuperBlock) -> (res: Result<Self, Error<SfsError>>)
        requires
            le64(bytes@, 26) != 0 ==> super_block.has_small_blocks(),
        ensures
            res is Ok <==> fileentry_valid(
                *super_block,
                bytes@[0],
                bytes@.subrange(34, 64),
                le64(bytes@, 10),
                le64(bytes@, 18),
                le64(bytes@, 26),
            ),
            res matches Ok(e) ==> e.entry_type == bytes@[0] && e.continuation_nb == bytes@[1]
                && e.last_modification_time == lei64(bytes@, 2) && e.data_starting_block == le64(bytes@, 10)
                && e.data_ending_block == le64(bytes@, 18) && e.length == le64(bytes@, 26) && e.path@
                == bytes@.subrange(34, 64),
            res matches Err(err) ==> fileentry_error(
                *super_block,
                bytes@[0],
                bytes@.subrange(34, 64),
                le64(bytes@, 10),
                le64(bytes@, 18),
                le64(bytes@, 26),
                err,
            ),
    {
        let entry = FileEntry {
            entry_type: bytes[0],
            continuation_nb: bytes[1],
            last_modification_time: read_i64_at(&bytes, 2),
            data_starting_block: read_u64_at(&bytes, 10),
            data_ending_block: read_u64_at(&bytes, 18),
            length: read_u64_at(&bytes, 26),
            path: sub_array::<30>(&bytes, 34),
        };
        match entry.validity_check(super_block) {
            Ok(()) => Ok(entry),
            Err(e) => Err(e),
        }
    }
}

/// Deleted File Entry: a file entry whose type byte was changed to mark it deleted.
#[derive(Debug, Clone, Copy)]
pub struct DeletedFileEntry {
    /// Entry type; must be `0x1A`.
    pub entry_type: u8,
    /// Number of continuation entries following this entry.
    pub continuation_nb: u8,
    /// Time stamp of the last modification of the file.
    pub last_modification_time: i64,
    /// Starting block of the region of the Data Area holding the file's content.
    pub data_starting_block: u64,
    /// Ending block (excluded) of the region of the Data Area holding the file's content.
    pub data_ending_block: u64,
    /// File length in bytes.
    pub length: u64,
    /// Full path of the file (without initial `/`), ending with `<NUL>`.
    pub path: [u8; 30],
}

/// Whether the fields of a file entry of the given kind are well-formed.
pub open spec fn deletedfileentry_valid(sb: SuperBlock, t: u8, path: Seq<u8>, start: u64, end: u64, length: u64) -> bool {
    entry_type_of(t) == EntryType::DeletedFile && name_field_ok(path) && file_region_valid(sb, start, end, length)
}

/// Whether `err` is the error reported on the (ill-formed) fields: the first failing check among the type, the
/// path and the data region.
pub open spec fn deletedfileentry_error(
    sb: SuperBlock,
    t: u8,
    path: Seq<u8>,
    start: u64,
    end: u64,
    length: u64,
    err: Error<SfsError>,
) -> bool {
    if entry_type_of(t) != EntryType::DeletedFile {
        err == wrong_type(EntryType::DeletedFile, t)
    } else if !name_field_ok(path) {
        name_field_error(path, err)
    } else {
        err == bad_region(start, end, length)
    }
}

impl DeletedFileEntry {
    /// Parses the last modification time into a [`TimeStamp`].
    pub fn parse_last_modification_time(&self) -> (res: TimeStamp)
        ensures
            res.0 == self.last_modification_time,
    {
        TimeStamp(self.last_modification_time)
    }

    /// Parses the path field into a [`NameString`]; the continuation entries are not taken into account.
    pub fn parse_path(&self) -> (res: Result<NameString, Error<SfsError>>)
        ensures
            name_field_ok(self.path@) ==> (res matches Ok(n) && n@ == nul_cut(self.path@).drop_last()),
            !name_field_ok(self.path@) ==> (res matches Err(e) && name_field_error(self.path@, e)),
    {
        NameString::new_from_start(self.path.as_slice())
    }

    /// Checks whether the data region of this entry is valid: the region starts before it ends, both ends lie in
    /// the data area, and the number of blocks is exactly the one needed for the length; or the file is empty
    /// and uses no block (starting block, ending block and length all zero).
    pub fn is_data_region_valid(&self, super_block: &SuperBlock) -> (res: bool)
        requires
            self.length != 0 ==> super_block.has_small_blocks(),
        ensures
            res == file_region_valid(*super_block, self.data_starting_block, self.data_ending_block, self.length),
    {
        check_file_region(super_block, self.data_starting_block, self.data_ending_block, self.length)
    }

    /// Checks the validity of the fields of the entry: its type, then its path, then its data region.
    pub fn validity_check(&self, super_block: &SuperBlock) -> (res: Result<(), Error<SfsError>>)
        requires
            self.length != 0 ==> super_block.has_small_blocks(),
        ensures
            res is Ok <==> deletedfileentry_valid(
                *super_block,
                self.entry_type,
                self.path@,
                self.data_starting_block,
                self.data_ending_block,
                self.length,
            ),
            res matches Err(e) ==> deletedfileentry_error(
                *super_block,
                self.entry_type,
                self.path@,
                self.data_starting_block,
                self.data_ending_block,
                self.length,
                e,
            ),
    {
        if !matches!(EntryType::from_byte(self.entry_type), EntryType::DeletedFile) {
            return Err(
                Error::Fs(
                    FsError::Implementation(
                        SfsError::WrongEntryType {
                            expected: EntryType::DeletedFile,
                            given: EntryType::from_byte(self.entry_type),
                        },
                    ),
                ),
            );
        }
        match self.parse_path() {
            Ok(_) => {},
            Err(e) => return Err(e),
        }
        if self.is_data_region_valid(super_block) {
            Ok(())
        } else {
            Err(
                Error::Fs(
                    FsError::Implementation(
                        SfsError::BadDataRegion {
                            region_start: self.data_starting_block,
                            region_end: self.data_ending_block,
                            length: self.length,
                        },
                    ),
                ),
            )
        }
    }

    /// Parses the 64 bytes of an entry of the Index Area and ensures that every field is well-formed.
    pub fn parse(bytes: [u8; 64], super_block: &SuperBlock) -> (res: Result<Self, Error<SfsError>>)
        requires
            le64(bytes@, 26) != 0 ==> super_block.has_small_blocks(),
        ensures
            res is Ok <==> deletedfileentry_valid(
                *super_block,
                bytes@[0],
                bytes@.subrange(34, 64),
                le64(bytes@, 10),
                le64(bytes@, 18),
                le64(bytes@, 26),
            ),
            res matches Ok(e) ==> e.entry_type == bytes@[0] && e.continuation_nb == bytes@[1]
                && e.last_modification_time == lei64(bytes@, 2) && e.data_starting_block == le64(bytes@, 10)
                && e.data_ending_block == le64(bytes@, 18) && e.length == le64(bytes@, 26) && e.path@
                == bytes@.subrange(34, 64),
            res matches Err(err) ==> deletedfileentry_error(
                *super_block,
                bytes@[0],
                bytes@.subrange(34, 64),
                le64(bytes@, 10),
                le64(bytes@, 18),
                le64(bytes@, 26),
                err,
            ),
    {
        let entry = DeletedFileEntry {
            entry_type: bytes[0],
            continuation_nb: bytes[1],
            last_modification_time: read_i64_at(&bytes, 2),
            data_starting_block: read_u64_at(&bytes, 10),
            data_ending_block: read_u64_at(&bytes, 18),
            length: read_u64_at(&bytes, 26),
            path: sub_array::<30>(&bytes, 34),
        };
        match entry.validity_check(super_block) {
            Ok(()) => Ok(entry),
            Err(e) => Err(e),
        }
    }
}

/// Unusable Entry: marks a region of the Data Area as unusable (bad sectors for example).
#[derive(Debug, Clone, Copy)]
pub struct UnusableEntry {
    /// Entry type; must be `0x18`.
    pub entry_type: u8,
    /// Unused/reserved.
    pub reserved_1: [u8; 9],
    /// Starting block of the unusable region.
    pub data_starting_block: u64,
    /// Ending block of the unusable region.
    pub data_ending_block: u64,
    /// Unused/reserved.
    pub reserved_2: [u8; 38],
}

/// Whether the length reported for an unusable region, `(1 + end - start)` blocks in bytes, can be computed
/// without overflow.
pub open spec fn unusable_length_computable(sb: SuperBlock, start: u64, end: u64) -> bool {
    &&& sb.has_small_blocks()
    &&& end + 1 <= u64::MAX
    &&& start <= end + 1
    &&& (end + 1 - start) * bytes_per_block_spec(sb.block_size) <= u64::MAX
}

/// Whether an unusable entry can be checked: when its region is invalid, the reported length must be computable.
pub open spec fn unusable_checkable(sb: SuperBlock, t: u8, start: u64, end: u64) -> bool {
    entry_type_of(t) == EntryType::Unusable && !unusable_region_valid(sb, start, end) ==> unusable_length_computable(
        sb,
        start,
        end,
    )
}

/// Whether `err` is the error reported on an (ill-formed) unusable entry: the wrong type, or the bad region with
/// its length in bytes.
pub open spec fn unusable_error(sb: SuperBlock, t: u8, start: u64, end: u64, err: Error<SfsError>) -> bool {
    if entry_type_of(t) != EntryType::Unusable {
        err == wrong_type(EntryType::Unusable, t)
    } else {
        err == bad_region(start, end, ((end + 1 - start) * bytes_per_block_spec(sb.block_size)) as u64)
    }
}

impl UnusableEntry {
    /// Checks whether the data region of this entry is valid: it starts no later than it ends and both ends lie in
    /// the data area.
    pub fn is_data_region_valid(&self, super_block: &SuperBlock) -> (res: bool)
        ensures
            res == unusable_region_valid(*super_block, self.data_starting_block, self.data_ending_block),
    {
        self.data_starting_block <= self.data_ending_block && super_block.is_block_in_data_area(
            self.data_starting_block,
        ) && super_block.is_block_in_data_area(self.data_ending_block)
    }

    /// Checks the validity of the fields of the entry: its type, then its region.
    pub fn validity_check(&self, super_block: &SuperBlock) -> (res: Result<(), Error<SfsError>>)
        requires
            unusable_checkable(*super_block, self.entry_type, self.data_starting_block, self.data_ending_block),
        ensures
            res is Ok <==> entry_type_of(self.entry_type) == EntryType::Unusable && unusable_region_valid(
                *super_block,
                self.data_starting_block,
                self.data_ending_block,
            ),
            res matches Err(e) ==> unusable_error(
                *super_block,
                self.entry_type,
                self.data_starting_block,
                self.data_ending_block,
                e,
            ),
    {
        if !matches!(EntryType::from_byte(self.entry_type), EntryType::Unusable) {
            Err(
                Error::Fs(
                    FsError::Implementation(
                        SfsError::WrongEntryType {
                            expected: EntryType::Unusable,
                            given: EntryType::from_byte(self.entry_type),
                        },
                    ),
                ),
            )
        } else if !self.is_data_region_valid(super_block) {
            let blocks = 1 + self.data_ending_block - self.data_starting_block;
            let bpb = super_block.bytes_per_block() as u64;
            Err(
                Error::Fs(
                    FsError::Implementation(
                        SfsError::BadDataRegion {
                            region_start: self.data_starting_block,
                            region_end: self.data_ending_block,
                            length: blocks * bpb,
                        },
                    ),
                ),
            )
        } else {
            Ok(())
        }
    }

    /// Parses the 64 bytes of an entry of the Index Area and ensures that every field is well-formed.
    pub fn parse(bytes: [u8; 64], super_block: &SuperBlock) -> (res: Result<Self, Error<SfsError>>)
        requires
            unusable_checkable(*super_block, bytes@[0], le64(bytes@, 10), le64(bytes@, 18)),
        ensures
            res is Ok <==> entry_type_of(bytes@[0]) == EntryType::Unusable && unusable_region_valid(
                *super_block,
                le64(bytes@, 10),
                le64(bytes@, 18),
            ),
            res matches Ok(e) ==> e.entry_type == bytes@[0] && e.reserved_1@ == bytes@.subrange(1, 10)
                && e.data_starting_block == le64(bytes@, 10) && e.data_ending_block == le64(bytes@, 18)
                && e.reserved_2@ == bytes@.subrange(26, 64),
            res matches Err(err) ==> unusable_error(
                *super_block,
                bytes@[0],
                le64(bytes@, 10),
                le64(bytes@, 18),
                err,
            ),
    {
        let entry = UnusableEntry {
            entry_type: bytes[0],
            reserved_1: sub_array::<9>(&bytes, 1),
            data_starting_block: read_u64_at(&bytes, 10),
            data_ending_block: read_u64_at(&bytes, 18),
            reserved_2: sub_array::<38>(&bytes, 26),
        };
        match entry.validity_check(super_block) {
            Ok(()) => Ok(entry),
            Err(e) => Err(e),
        }
    }
}

impl From<DirectoryEntry> for DeletedDirectoryEntry {
    fn from(value: DirectoryEntry) -> (res: DeletedDirectoryEntry)
        ensures
            res.entry_type == value.entry_type && res.continuation_nb == value.continuation_nb
                && res.last_modification_time == value.last_modification_time && res.path@ == value.path@,
    {
        DeletedDirectoryEntry {
            entry_type: value.entry_type,
            continuation_nb: value.continuation_nb,
            last_modification_time: value.last_modification_time,
            path: value.path,
        }
    }
}

impl From<DeletedDirectoryEntry> for DirectoryEntry {
    fn from(value: DeletedDirectoryEntry) -> (res: DirectoryEntry)
        ensures
            res.entry_type == value.entry_type && res.continuation_nb == value.continuation_nb
                && res.last_modification_time == value.last_modification_time && res.path@ == value.path@,
    {
        DirectoryEntry {
            entry_type: value.entry_type,
            continuation_nb: value.continuation_nb,
            last_modification_time: value.last_modification_time,
            path: value.path,
        }
    }
}

impl From<FileEntry> for DeletedFileEntry {
    fn from(value: FileEntry) -> (res: DeletedFileEntry)
        ensures
            res.entry_type == value.entry_type && res.continuation_nb == value.continuation_nb
                && res.last_modification_time == value.last_modification_time && res.data_starting_block
                == value.data_starting_block && res.data_ending_block == value.data_ending_block && res.length
                == value.length && res.path@ == value.path@,
    {
        DeletedFileEntry {
            entry_type: value.entry_type,
            continuation_nb: value.continuation_nb,
            last_modification_time: value.last_modification_time,
            data_starting_block: value.data_starting_block,
            data_ending_block: value.data_ending_block,
            length: value.length,
            path: value.path,
        }
    }
}

impl From<DeletedFileEntry> for FileEntry {
    fn from(value: DeletedFileEntry) -> (res: FileEntry)
        ensures
            res.entry_type == value.entry_type && res.continuation_nb == value.continuation_nb
                && res.last_modification_time == value.last_modification_time && res.data_starting_block
                == value.data_starting_block && res.data_ending_block == value.data_ending_block && res.length
                == value.length && res.path@ == value.path@,
    {
        FileEntry {
            entry_type: value.entry_type,
            continuation_nb: value.continuation_nb,
            last_modification_time: value.last_modification_time,
            data_starting_block: value.data_starting_block,
            data_ending_block: value.data_ending_block,
            length: value.length,
            path: value.path,
        }
    }
}

/// Continuation Entry: extends the name of the preceding directory or file entry. Its type byte is the first
/// byte of its name.
#[derive(Debug, Clone, Copy)]
pub struct ContinuationEntry {
    /// Name bytes; only one `<NUL>` is expected, at the very end of the full name.
    entry_name: [u8; 64],
}

impl ContinuationEntry {
    /// The 64 name bytes of the entry.
    pub closed spec fn name_bytes(&self) -> Seq<u8> {
        self.entry_name@
    }

    /// Returns the 64 name bytes of the entry.
    pub fn entry_name(&self) -> (res: [u8; 64])
        ensures
            res@ == self.name_bytes(),
    {
        self.entry_name
    }

    /// Parses the name bytes into a [`NameString`]; the other continuation entries are not taken into account.
    pub fn parse_entry_name(&self) -> (res: Result<NameString, Error<SfsError>>)
        ensures
            name_field_ok(self.name_bytes()) ==> (res matches Ok(n) && n@ == nul_cut(self.name_bytes()).drop_last()),
            !name_field_ok(self.name_bytes()) ==> (res matches Err(e) && name_field_error(self.name_bytes(), e)),
    {
        NameString::new_from_start(self.entry_name.as_slice())
    }

    /// Checks the validity of the entry: its first byte must be a continuation type byte (reported as a wrong
    /// type against the deleted file type otherwise), then its name must be valid.
    pub fn validity_check(&self, super_block: &SuperBlock) -> (res: Result<(), Error<SfsError>>)
        ensures
            res is Ok <==> self.name_bytes()[0] >= 0x20 && name_field_ok(self.name_bytes()),
            self.name_bytes()[0] < 0x20 ==> res == Err::<(), Error<SfsError>>(
                wrong_type(EntryType::DeletedFile, self.name_bytes()[0]),
            ),
            self.name_bytes()[0] >= 0x20 && !name_field_ok(self.name_bytes()) ==> (res matches Err(e)
                && name_field_error(self.name_bytes(), e)),
    {
        let first = self.entry_name[0];
        if first < 0x20 {
            return Err(
                Error::Fs(
                    FsError::Implementation(
                        SfsError::WrongEntryType {
                            expected: EntryType::DeletedFile,
                            given: EntryType::from_byte(first),
                        },
                    ),
                ),
            );
        }
        match self.parse_entry_name() {
            Ok(_) => Ok(()),
            Err(e) => Err(e),
        }
    }

    /// Parses the 64 bytes of an entry of the Index Area and ensures that every field is well-formed.
    pub fn parse(bytes: [u8; 64], super_block: &SuperBlock) -> (res: Result<Self, Error<SfsError>>)
        ensures
            res is Ok <==> bytes@[0] >= 0x20 && name_field_ok(bytes@),
            res matches Ok(e) ==> e.name_bytes() == bytes@,
            bytes@[0] < 0x20 ==> res == Err::<Self, Error<SfsError>>(wrong_type(EntryType::DeletedFile, bytes@[0])),
            bytes@[0] >= 0x20 && !name_field_ok(bytes@) ==> (res matches Err(e) && name_field_error(bytes@, e)),
    {
        let entry = ContinuationEntry { entry_name: bytes };
        match entry.validity_check(super_block) {
            Ok(()) => Ok(entry),
            Err(e) => Err(e),
        }
    }
}

/// Enumeration of possible entries in the Index Area.
#[derive(Debug, Clone, Copy)]
pub enum EntryTypeWithEntry {
    /// Indicates the end of the volume.
    VolumeIdentifier(VolumeIdentifierEntry),
    /// Indicates the start of the Index Area.
    StartingMarker(StartingMarkerEntry),
    /// Unused entry.
    Unused(UnusedEntry),
    /// A directory.
    Directory(DirectoryEntry),
    /// A regular file.
    File(FileEntry),
    /// An unusable region of the Data Area.
    Unusable(UnusableEntry),
    /// A deleted directory.
    DeletedDirectory(DeletedDirectoryEntry),
    /// A deleted regular file.
    DeletedFile(DeletedFileEntry),
    /// Extension of a name.
    Continuation(ContinuationEntry),
}

/// Whether the 64 bytes of an entry are well-formed for the entry type their first byte denotes.
pub open spec fn entry_bytes_valid(sb: SuperBlock, b: Seq<u8>) -> bool {
    match entry_type_of(b[0]) {
        EntryType::VolumeIdentifier => volume_valid(b[0], b.subrange(1, 4), b.subrange(12, 64)),
        EntryType::StartingMarker => true,
        EntryType::Unused => true,
        EntryType::Directory => name_field_ok(b.subrange(10, 64)),
        EntryType::File => fileentry_valid(sb, b[0], b.subrange(34, 64), le64(b, 10), le64(b, 18), le64(b, 26)),
        EntryType::Unusable => unusable_region_valid(sb, le64(b, 10), le64(b, 18)),
        EntryType::DeletedDirectory => name_field_ok(b.subrange(10, 64)),
        EntryType::DeletedFile => deletedfileentry_valid(
            sb,
            b[0],
            b.subrange(34, 64),
            le64(b, 10),
            le64(b, 18),
            le64(b, 26),
        ),
        EntryType::Continuation(_) => name_field_ok(b),
    }
}

/// Whether the 64 bytes of an entry can be checked: an invalid unusable region must have a computable length.
pub open spec fn entry_bytes_checkable(sb: SuperBlock, b: Seq<u8>) -> bool {
    unusable_checkable(sb, b[0], le64(b, 10), le64(b, 18))
}

/// Whether `err` is the error reported on the (ill-formed) 64 bytes of an entry: the error of the parser of the
/// entry type their first byte denotes.
pub open spec fn entry_bytes_error(sb: SuperBlock, b: Seq<u8>, err: Error<SfsError>) -> bool {
    match entry_type_of(b[0]) {
        EntryType::VolumeIdentifier => exists|r: [u8; 3]|
            r@ == b.subrange(1, 4) && #[trigger] volume_error(b[0], r, b.subrange(12, 64), err),
        EntryType::StartingMarker => false,
        EntryType::Unused => false,
        EntryType::Directory => name_field_error(b.subrange(10, 64), err),
        EntryType::File => fileentry_error(sb, b[0], b.subrange(34, 64), le64(b, 10), le64(b, 18), le64(b, 26), err),
        EntryType::Unusable => unusable_error(sb, b[0], le64(b, 10), le64(b, 18), err),
        EntryType::DeletedDirectory => name_field_error(b.subrange(10, 64), err),
        EntryType::DeletedFile => deletedfileentry_error(
            sb,
            b[0],
            b.subrange(34, 64),
            le64(b, 10),
            le64(b, 18),
            le64(b, 26),
            err,
        ),
        EntryType::Continuation(_) => name_field_error(b, err),
    }
}

/// Whether the fields of an entry are those stored in its 64 bytes (the reserved bytes of starting markers
/// and unused entries aside).
pub open spec fn entry_matches_bytes(e: EntryTypeWithEntry, b: Seq<u8>) -> bool {
    match e {
        EntryTypeWithEntry::VolumeIdentifier(v) => v.entry_type == b[0] && v.reserved@ == b.subrange(1, 4)
            && v.format_time == lei64(b, 4) && v.volume_name@ == b.subrange(12, 64),
        EntryTypeWithEntry::StartingMarker(m) => m.entry_type == b[0],
        EntryTypeWithEntry::Unused(u) => u.entry_type == b[0],
        EntryTypeWithEntry::Directory(d) => d.entry_type == b[0] && d.continuation_nb == b[1]
            && d.last_modification_time == lei64(b, 2) && d.path@ == b.subrange(10, 64),
        EntryTypeWithEntry::File(f) => f.entry_type == b[0] && f.continuation_nb == b[1]
            && f.last_modification_time == lei64(b, 2) && f.data_starting_block == le64(b, 10)
            && f.data_ending_block == le64(b, 18) && f.length == le64(b, 26) && f.path@ == b.subrange(34, 64),
        EntryTypeWithEntry::Unusable(u) => u.entry_type == b[0] && u.reserved_1@ == b.subrange(1, 10)
            && u.data_starting_block == le64(b, 10) && u.data_ending_block == le64(b, 18) && u.reserved_2@
            == b.subrange(26, 64),
        EntryTypeWithEntry::DeletedDirectory(d) => d.entry_type == b[0] && d.continuation_nb == b[1]
            && d.last_modification_time == lei64(b, 2) && d.path@ == b.subrange(10, 64),
        EntryTypeWithEntry::DeletedFile(f) => f.entry_type == b[0] && f.continuation_nb == b[1]
            && f.last_modification_time == lei64(b, 2) && f.data_starting_block == le64(b, 10)
            && f.data_ending_block == le64(b, 18) && f.length == le64(b, 26) && f.path@ == b.subrange(34, 64),
        EntryTypeWithEntry::Continuation(c) => c.name_bytes() == b,
    }
}

impl EntryTypeWithEntry {
    /// The entry type of this entry.
    pub open spec fn variant_spec(&self) -> EntryType {
        match self {
            EntryTypeWithEntry::VolumeIdentifier(_) => EntryType::VolumeIdentifier,
            EntryTypeWithEntry::StartingMarker(_) => EntryType::StartingMarker,
            EntryTypeWithEntry::Unused(_) => EntryType::Unused,
            EntryTypeWithEntry::Directory(_) => EntryType::Directory,
            EntryTypeWithEntry::File(_) => EntryType::File,
            EntryTypeWithEntry::Unusable(_) => EntryType::Unusable,
            EntryTypeWithEntry::DeletedDirectory(_) => EntryType::DeletedDirectory,
            EntryTypeWithEntry::DeletedFile(_) => EntryType::DeletedFile,
            EntryTypeWithEntry::Continuation(entry) => EntryType::Continuation(entry.name_bytes()[0]),
        }
    }

    /// Parses an entry of the Index Area from its bytes and returns the variant its first byte denotes.
    ///
    /// This function ensures that every field of the resulting entry is well-formed.
    pub fn parse_bytes(bytes: [u8; 64], super_block: &SuperBlock) -> (res: Result<Self, Error<SfsError>>)
        requires
            (entry_type_of(bytes@[0]) == EntryType::File || entry_type_of(bytes@[0]) == EntryType::DeletedFile)
                && le64(bytes@, 26) != 0 ==> super_block.has_small_blocks(),
            entry_bytes_checkable(*super_block, bytes@),
        ensures
            res is Ok <==> entry_bytes_valid(*super_block, bytes@),
            res matches Ok(e) ==> e.variant_spec() == entry_type_of(bytes@[0]) && entry_matches_bytes(e, bytes@),
            res matches Err(err) ==> entry_bytes_error(*super_block, bytes@, err),
    {
        match EntryType::from_byte(bytes[0]) {
            EntryType::VolumeIdentifier => match VolumeIdentifierEntry::parse(bytes, super_block) {
                Ok(e) => Ok(EntryTypeWithEntry::VolumeIdentifier(e)),
                Err(e) => Err(e),
            },
            EntryType::StartingMarker => match StartingMarkerEntry::parse(bytes, super_block) {
                Ok(e) => Ok(EntryTypeWithEntry::StartingMarker(e)),
                Err(e) => Err(e),
            },
            EntryType::Unused => match UnusedEntry::parse(bytes, super_block) {
                Ok(e) => Ok(EntryTypeWithEntry::Unused(e)),
                Err(e) => Err(e),
            },
            EntryType::Directory => match DirectoryEntry::parse(bytes, super_block) {
                Ok(e) => Ok(EntryTypeWithEntry::Directory(e)),
                Err(e) => Err(e),
            },
            EntryType::File => match FileEntry::parse(bytes, super_block) {
                Ok(e) => Ok(EntryTypeWithEntry::File(e)),
                Err(e) => Err(e),
            },
            EntryType::Unusable => match UnusableEntry::parse(bytes, super_block) {
                Ok(e) => Ok(EntryTypeWithEntry::Unusable(e)),
                Err(e) => Err(e),
            },
            EntryType::DeletedDirectory => match DeletedDirectoryEntry::parse(bytes, super_block) {
                Ok(e) => Ok(EntryTypeWithEntry::DeletedDirectory(e)),
                Err(e) => Err(e),
            },
            EntryType::DeletedFile => match DeletedFileEntry::parse(bytes, super_block) {
                Ok(e) => Ok(EntryTypeWithEntry::DeletedFile(e)),
                Err(e) => Err(e),
            },
            EntryType::Continuation(_) => match ContinuationEntry::parse(bytes, super_block) {
                Ok(e) => Ok(EntryTypeWithEntry::Continuation(e)),
                Err(e) => Err(e),
            },
        }
    }

    /// Returns the [`EntryType`] corresponding to the current entry.
    pub fn variant(&self) -> (res: EntryType)
        ensures
            res == self.variant_spec(),
    {
        match self {
            EntryTypeWithEntry::VolumeIdentifier(_) => EntryType::VolumeIdentifier,
            EntryTypeWithEntry::StartingMarker(_) => EntryType::StartingMarker,
            EntryTypeWithEntry::Unused(_) => EntryType::Unused,
            EntryTypeWithEntry::Directory(_) => EntryType::Directory,
            EntryTypeWithEntry::File(_) => EntryType::File,
            EntryTypeWithEntry::Unusable(_) => EntryType::Unusable,
            EntryTypeWithEntry::DeletedDirectory(_) => EntryType::DeletedDirectory,
            EntryTypeWithEntry::DeletedFile(_) => EntryType::DeletedFile,
            EntryTypeWithEntry::Continuation(entry) => EntryType::Continuation(entry.entry_name[0]),
        }
    }

    /// Returns the byte offset of the entry at the given index in the Index Area.
    ///
    /// The entries are indexed in the order of the Index Area, i.e. in the reverse order of the device: the entry
    /// at index `i` starts `64 * i` bytes before the end of the volume.
    pub fn starting_addr(super_block: &SuperBlock, index: u64) -> (res: crate::dev::address::Address)
        requires
            super_block.size_fits(),
            super_block.index_size <= super_block.total_blocks * bytes_per_block_spec(super_block.block_size),
            index * 64 <= super_block.total_blocks * bytes_per_block_spec(super_block.block_size),
        ensures
            res@ == super_block.total_blocks * bytes_per_block_spec(super_block.block_size) - index * 64,
    {
        let start = super_block.index_area_starting_addr();
        proof {
            crate::dev::address::lemma_address_ops(start, start, super_block.index_size);
        }
        let end = start + super_block.index_size;
        let back: u64 = index * ENTRY_SIZE;
        proof {
            crate::dev::address::lemma_address_ops(end, end, back);
        }
        end - back
    }
}

impl From<EntryTypeWithEntry> for EntryType {
    fn from(value: EntryTypeWithEntry) -> (res: EntryType)
        ensures
            res == value.variant_spec(),
    {
        value.variant()
    }
}

impl vstd::std_specs::convert::FromSpecImpl<DirectoryEntry> for DeletedDirectoryEntry {
    open spec fn obeys_from_spec() -> bool {
        true
    }

    open spec fn from_spec(v: DirectoryEntry) -> DeletedDirectoryEntry {
        DeletedDirectoryEntry {
            entry_type: v.entry_type,
            continuation_nb: v.continuation_nb,
            last_modification_time: v.last_modification_time,
            path: v.path,
        }
    }
}

impl vstd::std_specs::convert::FromSpecImpl<DeletedDirectoryEntry> for DirectoryEntry {
    open spec fn obeys_from_spec() -> bool {
        true
    }

    open spec fn from_spec(v: DeletedDirectoryEntry) -> DirectoryEntry {
        DirectoryEntry {
            entry_type: v.entry_type,
            continuation_nb: v.continuation_nb,
            last_modification_time: v.last_modification_time,
            path: v.path,
        }
    }
}

impl vstd::std_specs::convert::FromSpecImpl<FileEntry> for DeletedFileEntry {
    open spec fn obeys_from_spec() -> bool {
        true
    }

    open spec fn from_spec(v: FileEntry) -> DeletedFileEntry {
        DeletedFileEntry {
            entry_type: v.entry_type,
            continuation_nb: v.continuation_nb,
            last_modification_time: v.last_modification_time,
            data_starting_block: v.data_starting_block,
            data_ending_block: v.data_ending_block,
            length: v.length,
            path: v.path,
        }
    }
}

impl vstd::std_specs::convert::FromSpecImpl<DeletedFileEntry> for FileEntry {
    open spec fn obeys_from_spec() -> bool {
        true
    }

    open spec fn from_spec(v: DeletedFileEntry) -> FileEntry {
        FileEntry {
            entry_type: v.entry_type,
            continuation_nb: v.continuation_nb,
            last_modification_time: v.last_modification_time,
            data_starting_block: v.data_starting_block,
            data_ending_block: v.data_ending_block,
            length: v.length,
            path: v.path,
        }
    }
}

impl vstd::std_specs::convert::FromSpecImpl<EntryTypeWithEntry> for EntryType {
    open spec fn obeys_from_spec() -> bool {
        true
    }

    open spec fn from_spec(v: EntryTypeWithEntry) -> EntryType {
        v.variant_spec()
    }
}

/// An entry parsed from bytes keeps, as its variant, the entry type the first byte denotes; reading the type byte
/// back gives the first byte unless it denotes no entry type.
pub proof fn lemma_parsed_variant_type_byte(sb: SuperBlock, b: Seq<u8>, e: EntryTypeWithEntry)
    requires
        e.variant_spec() == entry_type_of(b[0]),
    ensures
        entry_type_byte(e.variant_spec()) == (if entry_type_of(b[0]) == EntryType::Unused { 0x10 } else { b[0] }),
{
    lemma_byte_entry_type_roundtrip(b[0]);
}

/// A deleted file keeps the data region it can be restored with: turning a deleted file entry into a file
/// entry and back gives it back field for field, and both kinds of entry check that region alike.
pub proof fn lemma_deleted_file_keeps_region(e: DeletedFileEntry, sb: SuperBlock)
    ensures
        ({
            let f = <FileEntry as vstd::std_specs::convert::FromSpec<DeletedFileEntry>>::from_spec(e);
            &&& <DeletedFileEntry as vstd::std_specs::convert::FromSpec<FileEntry>>::from_spec(f) == e
            &&& file_region_valid(sb, f.data_starting_block, f.data_ending_block, f.length) == file_region_valid(
                sb,
                e.data_starting_block,
                e.data_ending_block,
                e.length,
            )
        }),
{
}

} // verus!
