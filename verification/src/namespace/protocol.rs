//! Wire constants and records of the namespace service.

use vstd::prelude::*;
use vstd::bytes::{spec_u32_to_le_bytes, spec_u64_to_le_bytes, u64_to_le_bytes};

use crate::bootstrap::protocol::push_u32;
use crate::fs::file::Type;

verus! {

/// Error code: the operation is unknown.
pub const NAMESPACE_UNKNOWN_OP: i32 = 1;

/// Error code: the request is malformed.
pub const NAMESPACE_INVALID_ARGUMENT: i32 = 2;

/// Error code: the mount point could not be bound.
pub const NAMESPACE_BIND_FAILED: i32 = 3;

/// Error code: the path is under no mount point.
pub const NAMESPACE_RESOLVE_FAILED: i32 = 4;

/// Error code: the driver of the mount point could not be reached.
pub const NAMESPACE_INTERNAL_ERROR: i32 = 5;

/// File type of a directory entry: unknown.
pub const NAMESPACE_FILE_TYPE_UNKNOWN: i32 = 0;

/// File type of a directory entry: regular file.
pub const NAMESPACE_FILE_TYPE_REGULAR: i32 = 1;

/// File type of a directory entry: directory.
pub const NAMESPACE_FILE_TYPE_DIRECTORY: i32 = 2;

/// File type of a directory entry: symbolic link.
pub const NAMESPACE_FILE_TYPE_SYMLINK: i32 = 3;

/// Rights attached to a mount point, as a set of bits.
#[derive(Debug, Clone, Copy, PartialEq, Eq, Structural)]
pub struct MountFlags {
    bits: u32,
}

/// The bits that name a right.
pub open spec fn mount_flags_all() -> u32 {
    0b1111
}

impl MountFlags {
    /// The set with one right: reading is allowed.
    pub fn readable() -> (res: Self)
        ensures
            res.spec_bits() == 0b0001,
    {
        MountFlags { bits: 0b0001 }
    }

    /// The set with one right: writing is allowed.
    pub fn writable() -> (res: Self)
        ensures
            res.spec_bits() == 0b0010,
    {
        MountFlags { bits: 0b0010 }
    }

    /// The set with one right: executing is allowed.
    pub fn executable() -> (res: Self)
        ensures
            res.spec_bits() == 0b0100,
    {
        MountFlags { bits: 0b0100 }
    }

    /// The set with one right: administration is allowed.
    pub fn admin() -> (res: Self)
        ensures
            res.spec_bits() == 0b1000,
    {
        MountFlags { bits: 0b1000 }
    }

    /// The bits of the set.
    pub closed spec fn spec_bits(&self) -> u32 {
        self.bits
    }

    /// The bits of the set.
    pub fn bits(&self) -> (res: u32)
        ensures
            res == self.spec_bits(),
    {
        self.bits
    }

    /// The set of the rights named in `bits`; the other bits are dropped.
    pub fn from_bits_truncate(bits: u32) -> (res: Self)
        ensures
            res.spec_bits() == bits & mount_flags_all(),
    {
        MountFlags { bits: bits & 0b1111 }
    }

    /// The empty set.
    pub fn empty() -> (res: Self)
        ensures
            res.spec_bits() == 0,
    {
        MountFlags { bits: 0 }
    }

    /// Whether every right of `other` is in the set.
    pub fn contains(&self, other: MountFlags) -> (res: bool)
        ensures
            res == (self.spec_bits() & other.spec_bits() == other.spec_bits()),
    {
        self.bits & other.bits == other.bits
    }

    /// The union of the two sets.
    pub fn union(self, other: MountFlags) -> (res: Self)
        ensures
            res.spec_bits() == self.spec_bits() | other.spec_bits(),
    {
        MountFlags { bits: self.bits | other.bits }
    }
}

/// Header of a directory entry as the namespace service sends it.
pub struct NsDirEntry {
    /// Length of the record.
    pub rec_len: usize,
    /// Length of the name.
    pub name_len: usize,
    /// One of the `NAMESPACE_FILE_TYPE_*` codes.
    pub file_type: i32,
    /// The name, of which `name_len` bytes are used.
    pub name: [u8; 256],
}

/// Bytes of the header of a directory entry: the two lengths on 64 bits and the type on 32 bits, little-endian.
pub open spec fn dir_entry_header_bytes(rec_len: usize, name_len: usize, file_type: i32) -> Seq<u8> {
    spec_u64_to_le_bytes(rec_len as u64) + spec_u64_to_le_bytes(name_len as u64) + spec_u32_to_le_bytes(
        file_type as u32,
    )
}

impl NsDirEntry {
    /// The bytes of the fields that precede the name.
    pub fn to_bytes(&self) -> (res: Vec<u8>)
        ensures
            res@ == dir_entry_header_bytes(self.rec_len, self.name_len, self.file_type),
    {
        let mut out = u64_to_le_bytes(self.rec_len as u64);
        let mut b = u64_to_le_bytes(self.name_len as u64);
        out.append(&mut b);
        push_u32(&mut out, self.file_type as u32);
        out
    }
}

/// Size in bytes of the fields that precede the name in a directory entry.
pub const DIR_ENTRY_HEADER_SIZE: usize = 20;

/// Code of a file type in a directory entry: directories, regular files and symbolic links have their own,
/// every other type is unknown.
pub open spec fn file_type_code_spec(t: Type) -> i32 {
    match t {
        Type::Directory => NAMESPACE_FILE_TYPE_DIRECTORY,
        Type::Regular => NAMESPACE_FILE_TYPE_REGULAR,
        Type::SymbolicLink => NAMESPACE_FILE_TYPE_SYMLINK,
        _ => NAMESPACE_FILE_TYPE_UNKNOWN,
    }
}

/// Code of a file type in a directory entry.
pub fn file_type_code(t: Type) -> (res: i32)
    ensures
        res == file_type_code_spec(t),
{
    match t {
        Type::Directory => NAMESPACE_FILE_TYPE_DIRECTORY,
        Type::Regular => NAMESPACE_FILE_TYPE_REGULAR,
        Type::SymbolicLink => NAMESPACE_FILE_TYPE_SYMLINK,
        _ => NAMESPACE_FILE_TYPE_UNKNOWN,
    }
}

/// Bytes of the directory entry of a file named `name` of type `t`: the header, whose record length counts
/// the header and the name, then the name.
pub open spec fn dir_entry_record_spec(name: Seq<u8>, t: Type) -> Seq<u8> {
    dir_entry_header_bytes((20 + name.len()) as usize, name.len() as usize, file_type_code_spec(t)) + name
}

/// The directory entry of a file named `name` of type `t`.
pub fn dir_entry_record(name: &[u8], t: Type) -> (res: Vec<u8>)
    requires
        20 + name@.len() <= usize::MAX,
    ensures
        res@ == dir_entry_record_spec(name@, t),
{
    let header = NsDirEntry {
        rec_len: DIR_ENTRY_HEADER_SIZE + name.len(),
        name_len: name.len(),
        file_type: file_type_code(t),
        name: [0u8; 256],
    };
    let mut out = header.to_bytes();
    let ghost start = out@;
    let mut i: usize = 0;
    while i < name.len()
        invariant
            i <= name@.len(),
            out@ == start + name@.subrange(0, i as int),
        decreases name@.len() - i,
    {
        out.push(name[i]);
        i = i + 1;
        assert(name@.subrange(0, i as int) =~= name@.subrange(0, i - 1).push(name@[i - 1]));
    }
    assert(name@.subrange(0, name@.len() as int) =~= name@);
    out
}

/// The entries of a directory listing, one after the other.
pub open spec fn listing_spec(entries: Seq<(Seq<u8>, Type)>) -> Seq<u8>
    decreases entries.len(),
{
    if entries.len() == 0 {
        Seq::empty()
    } else {
        listing_spec(entries.drop_last()) + dir_entry_record_spec(entries.last().0, entries.last().1)
    }
}

/// The listing of a directory whose files have the given names and types, in order.
pub fn directory_listing(entries: &[(Vec<u8>, Type)]) -> (res: Vec<u8>)
    requires
        forall|i: int| 0 <= i < entries@.len() ==> 20 + (#[trigger] entries@[i]).0@.len() <= usize::MAX,
    ensures
        res@ == listing_spec(entries@.map_values(|e: (Vec<u8>, Type)| (e.0@, e.1))),
{
    let ghost views = entries@.map_values(|e: (Vec<u8>, Type)| (e.0@, e.1));
    let mut out: Vec<u8> = Vec::new();
    let mut i: usize = 0;
    while i < entries.len()
        invariant
            i <= entries@.len(),
            views == entries@.map_values(|e: (Vec<u8>, Type)| (e.0@, e.1)),
            forall|k: int| 0 <= k < entries@.len() ==> 20 + (#[trigger] entries@[k]).0@.len() <= usize::MAX,
            out@ == listing_spec(views.subrange(0, i as int)),
        decreases entries@.len() - i,
    {
        let mut rec = dir_entry_record(entries[i].0.as_slice(), entries[i].1);
        out.append(&mut rec);
        proof {
            let sub = views.subrange(0, i + 1);
            assert(sub.drop_last() =~= views.subrange(0, i as int));
            assert(sub.last() == views[i as int]);
        }
        i = i + 1;
    }
    assert(views.subrange(0, entries@.len() as int) =~= views);
    out
}

} // verus!
