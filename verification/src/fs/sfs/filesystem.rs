//! An SFS filesystem on a device: its super-block, its root directory, and the data of its regular files.

use vstd::prelude::*;

use crate::dev::Device;
use crate::error::{Error, FsError, IoError};
use crate::fs::sfs::error::SfsError;
use crate::fs::sfs::index_area::{
    entry_bytes_error, entry_bytes_valid, entry_matches_bytes, entry_type_of, fileentry_error, fileentry_valid,
    name_field_error, name_field_ok, wrong_type, DirectoryEntry, EntryType, EntryTypeWithEntry, FileEntry,
};
use crate::fs::sfs::index_scan::{
    answered_until, answers, continuation_names, entries_checkable, index_checkable, index_ready_check, paths_indexable, entry_bytes_in, entry_count, entry_parses_to,
    entry_readable, find_all_entries, find_entry, full_path_indexes_ok, full_path_valid, index_entry_valid, index_ready,
    is_entry_index, lemma_entry_error_plain, listed, parse_full_path, path_head, scan_error_at, scanned_until,
};
use crate::fs::sfs::name_string::nul_cut;
use crate::namespace::path::bytes_equal;
use crate::fs::sfs::super_block::{
    bytes_per_block_spec, first_failed_check, same_super_block, super_block_of_bytes, super_block_valid, SuperBlock,
};
use crate::fs::file::{
    Base, DirectoryEntry as FileDirectoryEntry, DirectoryRead, FileRead, RegularRead, Stat, Type, TypeWithFile,
};
use crate::fs::sfs::time_stamp::{abs, timestamp_to_timespec, timestamp_to_timespec_spec, TimeStamp};
use crate::fs::structures::block::{seek_computable, seek_in_file, seek_target, BlockWrapper, SeekFrom};
use crate::fs::types::{Blkcnt, Blksize, Dev, Gid, Ino, Mode, Nlink, Off, Time, Timespec, Uid};

verus! {

/// The full path of entry `i`, when it holds one.
pub open spec fn full_path_of(sb: SuperBlock, c: Seq<u8>, i: int) -> Option<Seq<u8>> {
    match path_head(entry_bytes_in(sb, c, i)) {
        Some((p, k)) => Some(nul_cut(p).drop_last() + continuation_names(sb, c, i, k)),
        None => None,
    }
}

/// Whether entry `i` has the path of the root directory, `/`.
pub open spec fn is_root_path(sb: SuperBlock, c: Seq<u8>, i: int) -> bool {
    full_path_of(sb, c, i) == Some(seq![0x2Fu8])
}

/// Whether the entries before `i` have readable paths, none of which is the root's.
pub open spec fn no_root_before(sb: SuperBlock, c: Seq<u8>, i: int) -> bool {
    forall|k: int| 1 <= k < i ==> #[trigger] full_path_valid(sb, c, k) && !is_root_path(sb, c, k)
}


/// What finding the root directory of a filesystem of super-block `sb`, on device `device_id` holding `c`,
/// gives: the first entry whose full path is `/` when it is a directory, numbered by its index;
/// [`SfsError::NoRoot`] when no entry has that path; [`SfsError::WrongEntryType`] when the first that has it
/// is not a directory; otherwise an entry before it whose full path cannot be read, unless the device failed.
pub open spec fn root_found(sb: SuperBlock, c: Seq<u8>, device_id: u32, res: Result<Directory, Error<SfsError>>) -> bool {
    &&& res matches Ok(d) ==> {
        let j = d.spec_entry_number() as int;
        &&& is_entry_index(sb, j)
        &&& no_root_before(sb, c, j)
        &&& full_path_valid(sb, c, j)
        &&& is_root_path(sb, c, j)
        &&& entry_type_of(entry_bytes_in(sb, c, j)[0]) == EntryType::Directory
        &&& entry_matches_bytes(EntryTypeWithEntry::Directory(d.spec_entry()), entry_bytes_in(sb, c, j))
        &&& d.spec_super_block() == sb
        &&& d.spec_device_id() == device_id
    }
    &&& res matches Err(Error::Fs(FsError::Implementation(SfsError::NoRoot))) ==> no_root_before(
        sb,
        c,
        entry_count(sb) + 1,
    )
    &&& res matches Err(Error::Fs(FsError::Implementation(SfsError::WrongEntryType {
        expected: EntryType::Directory,
        given,
    }))) ==> exists|i: int|
        #[trigger] is_entry_index(sb, i) && no_root_before(sb, c, i) && full_path_valid(sb, c, i)
            && is_root_path(sb, c, i) && entry_type_of(entry_bytes_in(sb, c, i)[0]) == given && given
            != EntryType::Directory
    &&& res matches Err(err) ==> !(err matches Error::IO(_)) && !(err matches Error::Fs(
        FsError::Implementation(SfsError::NoRoot),
    )) && !(err matches Error::Fs(
        FsError::Implementation(SfsError::WrongEntryType { expected: EntryType::Directory, .. }),
    )) ==> exists|i: int|
        #[trigger] is_entry_index(sb, i) && no_root_before(sb, c, i) && !full_path_valid(sb, c, i)
}

/// An SFS filesystem: the device that holds it, its number, and its super-block.
pub struct Sfs<D> {
    device_id: u32,
    device: D,
    super_block: SuperBlock,
}

impl<D: Device> Sfs<D> {
    /// The bytes of the device.
    pub closed spec fn contents(&self) -> Seq<u8> {
        self.device.contents()
    }

    /// The super-block read from the device.
    pub closed spec fn spec_super_block(&self) -> SuperBlock {
        self.super_block
    }

    /// Number of the device.
    pub closed spec fn spec_device_id(&self) -> u32 {
        self.device_id
    }

    /// Opens the filesystem of `device`: reads and checks its super-block
    /// (see [`SuperBlock::parse`]).
    pub fn new(device: D, device_id: u32) -> (res: Result<Self, Error<SfsError>>)
        ensures
            ({
                let c = device.contents();
                let sb = super_block_of_bytes(c.subrange(0x194int, 0x194int + 42));
                &&& res matches Ok(fs) ==> super_block_valid(sb) && same_super_block(fs.spec_super_block(), sb)
                    && fs.contents() == c && fs.spec_device_id() == device_id
                &&& res matches Err(Error::Fs(_)) ==> !super_block_valid(sb)
                &&& c.len() >= 0x194 + 42 && !super_block_valid(sb) ==> res is Err
                &&& !(res matches Err(Error::IO(_))) ==> (res is Ok <==> super_block_valid(sb))
                &&& res matches Err(Error::Fs(f)) ==> first_failed_check(sb) matches Some(e) && f
                    == FsError::Implementation(e)
            }),
    {
        let mut device = device;
        let super_block = match SuperBlock::parse(&mut device) {
            Ok(sb) => sb,
            Err(e) => return Err(e),
        };
        Ok(Sfs { device_id, device, super_block })
    }

    /// The super-block.
    pub fn super_block(&self) -> (res: &SuperBlock)
        ensures
            *res == self.spec_super_block(),
    {
        &self.super_block
    }

    /// Number of the device.
    pub fn device_id(&self) -> (res: u32)
        ensures
            res == self.spec_device_id(),
    {
        self.device_id
    }

    /// Gives the device back.
    pub fn into_device(self) -> (res: D)
        ensures
            res.contents() == self.contents(),
    {
        self.device
    }

    /// Checks, by reading the super-block's fields and every entry slot of the volume, what finding the root
    /// and reading directories ask of the filesystem: that the super-block locates the Index Area within a
    /// volume whose size fits on 64 bits ([`index_ready`]), that every entry slot can be checked
    /// ([`entries_checkable`]) and that the full path of every entry can be indexed ([`paths_indexable`]).
    /// A failed read gives [`Error::IO`].
    pub fn check_index(&mut self) -> (res: Result<bool, Error<SfsError>>)
        ensures
            final(self).contents() == old(self).contents(),
            final(self).spec_super_block() == old(self).spec_super_block(),
            final(self).spec_device_id() == old(self).spec_device_id(),
            !index_ready(old(self).spec_super_block()) ==> res == Ok::<bool, Error<SfsError>>(false),
            res is Ok || res matches Err(Error::IO(_)),
            res matches Ok(b) ==> b == (index_ready(old(self).spec_super_block()) && entries_checkable(
                old(self).spec_super_block(),
                old(self).contents(),
            ) && paths_indexable(old(self).spec_super_block(), old(self).contents())),
    {
        if !index_ready_check(&self.super_block) {
            return Ok(false);
        }
        index_checkable(&mut self.device, &self.super_block)
    }

    /// Finds the root directory: the first entry whose full path is `/`, which must be a directory entry
    /// (see [`find_entry`] and [`Directory::new`]). Its number is the entry's index.
    ///
    /// Fails with [`SfsError::NoRoot`] when no entry has that path, with [`SfsError::WrongEntryType`] when
    /// that entry is not a directory, with the error of the first entry before it whose full path cannot be
    /// read, and with [`Error::IO`] when the device cannot be read.
    pub fn root(&mut self) -> (res: Result<Directory, Error<SfsError>>)
        requires
            index_ready(old(self).spec_super_block()),
            entries_checkable(old(self).spec_super_block(), old(self).contents()),
            paths_indexable(old(self).spec_super_block(), old(self).contents()),
        ensures
            final(self).contents() == old(self).contents(),
            final(self).spec_super_block() == old(self).spec_super_block(),
            final(self).spec_device_id() == old(self).spec_device_id(),
            root_found(old(self).spec_super_block(), old(self).contents(), old(self).spec_device_id(), res),
    {
        let sb = self.super_block;
        let ghost c = self.device.contents();
        let is_root = |_entry: EntryTypeWithEntry, idx: u64, device: &mut D| -> (r: Result<bool, Error<SfsError>>)
                requires
                    index_ready(sb),
                    entries_checkable(sb, old(device).contents()),
                    paths_indexable(sb, old(device).contents()),
                    is_entry_index(sb, idx as int),
                ensures
                    final(device).contents() == old(device).contents(),
                    r matches Ok(b) ==> full_path_valid(sb, old(device).contents(), idx as int) && (b <==> is_root_path(
                        sb,
                        old(device).contents(),
                        idx as int,
                    )),
                    r matches Err(e) ==> !(e matches Error::IO(_)) ==> !full_path_valid(
                        sb,
                        old(device).contents(),
                        idx as int,
                    ),
                    r matches Err(e) ==> !(e matches Error::Fs(FsError::Implementation(SfsError::NoRoot))),
                    r matches Err(Error::Fs(FsError::Implementation(SfsError::WrongEntryType { expected, .. })))
                        ==> expected == EntryType::Continuation(0x20),
            {
                proof {
                    assert(full_path_indexes_ok(sb, device.contents(), idx as int));
                }
                match parse_full_path(device, &sb, idx) {
                    Ok(Some(p)) => {
                        let b = p.as_bytes();
                        let is_root = b.len() == 1 && b[0] == 0x2F;
                        proof {
                            if is_root {
                                assert(p@ =~= seq![0x2Fu8]);
                            } else {
                                assert(p@ != seq![0x2Fu8]) by {
                                    if p@ == seq![0x2Fu8] {
                                        assert(p@.len() == 1 && p@[0] == 0x2Fu8);
                                    }
                                }
                            }
                        }
                        Ok(is_root)
                    },
                    Ok(None) => Ok(false),
                    Err(e) => Err(e),
                }
            };
        let found = find_entry(&mut self.device, &sb, is_root);
        let (entry, idx) = match found {
            Ok(Some(pair)) => pair,
            Ok(None) => {
                proof {
                    assert forall|k: int| 1 <= k < entry_count(sb) + 1 implies #[trigger] full_path_valid(sb, c, k)
                        && !is_root_path(sb, c, k) by {
                        assert(is_entry_index(sb, k));
                        let f = choose|f: EntryTypeWithEntry|
                            #[trigger] entry_parses_to(sb, c, k, f) && answers(is_root, f, k as u64, c, Ok(false));
                        let x = choose|x: &mut D|
                            #[trigger] x.contents() == c && call_ensures(is_root, (f, k as u64, x), Ok(false));
                    }
                }
                return Err(Error::Fs(FsError::Implementation(SfsError::NoRoot)));
            },
            Err(e) => {
                proof {
                    if !(e matches Error::IO(_)) {
                        let i = choose|i: int|
                            #[trigger] is_entry_index(sb, i) && scanned_until(sb, c, is_root, i) && scan_error_at(
                                sb,
                                c,
                                is_root,
                                i,
                                e,
                            );
                        assert forall|k: int| 1 <= k < i implies #[trigger] full_path_valid(sb, c, k) && !is_root_path(
                            sb,
                            c,
                            k,
                        ) by {
                            assert(is_entry_index(sb, k));
                            let f = choose|f: EntryTypeWithEntry|
                                #[trigger] entry_parses_to(sb, c, k, f) && answers(is_root, f, k as u64, c, Ok(false));
                            let x = choose|x: &mut D|
                                #[trigger] x.contents() == c && call_ensures(is_root, (f, k as u64, x), Ok(false));
                        }
                        if entry_readable(sb, c, i) && !entry_bytes_valid(sb, entry_bytes_in(sb, c, i))
                            && entry_bytes_error(sb, entry_bytes_in(sb, c, i), e) {
                            lemma_entry_error_plain(sb, entry_bytes_in(sb, c, i), e);
                        } else {
                            let f = choose|f: EntryTypeWithEntry|
                                entry_parses_to(sb, c, i, f) && #[trigger] answers(is_root, f, i as u64, c, Err(e));
                            let x = choose|x: &mut D|
                                #[trigger] x.contents() == c && call_ensures(is_root, (f, i as u64, x), Err(e));
                        }
                        assert(no_root_before(sb, c, i));
                    }
                }
                return Err(e);
            },
        };
        proof {
            let j = idx as int;
            assert forall|k: int| 1 <= k < j implies #[trigger] full_path_valid(sb, c, k) && !is_root_path(
                sb,
                c,
                k,
            ) by {
                assert(is_entry_index(sb, k));
                let f = choose|f: EntryTypeWithEntry|
                    #[trigger] entry_parses_to(sb, c, k, f) && answers(is_root, f, k as u64, c, Ok(false));
                let x = choose|x: &mut D|
                    #[trigger] x.contents() == c && call_ensures(is_root, (f, k as u64, x), Ok(false));
            }
            let x = choose|x: &mut D|
                #[trigger] x.contents() == c && call_ensures(is_root, (entry, j as u64, x), Ok(true));
            assert(is_entry_index(sb, j));
        }
        match entry {
            EntryTypeWithEntry::Directory(root) => Directory::new(self, idx, root),
            _ => Err(
                Error::Fs(
                    FsError::Implementation(
                        SfsError::WrongEntryType { expected: EntryType::Directory, given: entry.variant() },
                    ),
                ),
            ),
        }
    }

    /// The root directory, as [`root`](Sfs::root) finds it: SFS gives `//` no meaning of its own.
    pub fn double_slash_root(&mut self) -> (res: Result<Directory, Error<SfsError>>)
        requires
            index_ready(old(self).spec_super_block()),
            entries_checkable(old(self).spec_super_block(), old(self).contents()),
            paths_indexable(old(self).spec_super_block(), old(self).contents()),
        ensures
            final(self).contents() == old(self).contents(),
            final(self).spec_super_block() == old(self).spec_super_block(),
            final(self).spec_device_id() == old(self).spec_device_id(),
            root_found(old(self).spec_super_block(), old(self).contents(), old(self).spec_device_id(), res),
    {
        self.root()
    }
}

/// Whether the bytes of `prefix` start those of `s`.
pub open spec fn bytes_prefix(prefix: Seq<u8>, s: Seq<u8>) -> bool {
    prefix.len() <= s.len() && s.subrange(0, prefix.len() as int) == prefix
}

/// Whether entry `i` is a directory or a file entry.
pub open spec fn holds_file(sb: SuperBlock, c: Seq<u8>, i: int) -> bool {
    let t = entry_type_of(entry_bytes_in(sb, c, i)[0]);
    t == EntryType::Directory || t == EntryType::File
}

/// Whether entry `i` is listed in a directory whose full path is `dir`: it is a directory or a file entry whose
/// full path starts with the bytes of `dir`.
pub open spec fn listed_under(sb: SuperBlock, c: Seq<u8>, i: int, dir: Seq<u8>) -> bool {
    &&& holds_file(sb, c, i)
    &&& full_path_of(sb, c, i) matches Some(p) && bytes_prefix(dir, p)
}

/// Whether every entry is well-formed, and every directory or file entry has a readable full path.
pub open spec fn index_listable(sb: SuperBlock, c: Seq<u8>) -> bool {
    forall|i: int|
        #[trigger] is_entry_index(sb, i) ==> index_entry_valid(sb, c, i) && (holds_file(sb, c, i) ==> full_path_valid(
            sb,
            c,
            i,
        ))
}

/// The last component of a path: its bytes after its last `/`, or all of them when it has none.
pub open spec fn last_component(p: Seq<u8>) -> Seq<u8>
    decreases p.len(),
{
    if p.len() == 0 {
        Seq::empty()
    } else if p.last() == 0x2F {
        Seq::empty()
    } else {
        last_component(p.drop_last()).push(p.last())
    }
}

/// The bytes after position `i` of a path are its last component when `i` follows a `/` (or starts the path)
/// and no `/` comes after it.
proof fn lemma_last_component(p: Seq<u8>, i: int)
    requires
        0 <= i <= p.len(),
        i == 0 || p[i - 1] == 0x2F,
        forall|j: int| i <= j < p.len() ==> p[j] != 0x2F,
    ensures
        last_component(p) == p.subrange(i, p.len() as int),
    decreases p.len(),
{
    if p.len() == 0 {
        assert(p.subrange(i, p.len() as int) =~= Seq::<u8>::empty());
    } else if i == p.len() {
        assert(p.subrange(i, p.len() as int) =~= Seq::<u8>::empty());
    } else {
        lemma_last_component(p.drop_last(), i);
        assert(p.subrange(i, p.len() as int) =~= p.drop_last().subrange(i, p.len() - 1).push(p.last()));
    }
}

/// Whether the bytes of `prefix` start those of `s`.
fn has_prefix(s: &[u8], prefix: &[u8]) -> (res: bool)
    ensures
        res == bytes_prefix(prefix@, s@),
{
    if prefix.len() > s.len() {
        return false;
    }
    let mut i: usize = 0;
    while i < prefix.len()
        invariant
            i <= prefix.len() <= s.len(),
            forall|j: int| 0 <= j < i ==> s@[j] == prefix@[j],
        decreases prefix.len() - i,
    {
        if s[i] != prefix[i] {
            assert(s@.subrange(0, prefix@.len() as int)[i as int] != prefix@[i as int]);
            return false;
        }
        i = i + 1;
    }
    assert(s@.subrange(0, prefix@.len() as int) =~= prefix@);
    true
}

/// The last component of a path (see [`last_component`]).
fn last_component_of(p: &[u8]) -> (res: Vec<u8>)
    ensures
        res@ == last_component(p@),
{
    let mut start: usize = p.len();
    while start > 0 && p[start - 1] != 0x2F
        invariant
            start <= p.len(),
            forall|j: int| start <= j < p.len() ==> p@[j] != 0x2F,
        decreases start,
    {
        start = start - 1;
    }
    proof {
        lemma_last_component(p@, start as int);
    }
    let mut res: Vec<u8> = Vec::new();
    let mut k: usize = start;
    while k < p.len()
        invariant
            start <= k <= p.len(),
            res@ == p@.subrange(start as int, k as int),
        decreases p.len() - k,
    {
        res.push(p[k]);
        proof {
            assert(res@ =~= p@.subrange(start as int, k + 1));
        }
        k = k + 1;
    }
    res
}

/// The number of the entry of a file of an SFS directory listing.
pub open spec fn file_number(f: TypeWithFile<Directory>) -> int {
    match f {
        TypeWithFile::Regular(r) => r.spec_entry_number() as int,
        TypeWithFile::Directory(d) => d.spec_entry_number() as int,
        _ => -1,
    }
}

/// Whether `d` describes entry `i` of a filesystem of super-block `sb`, on device `device_id` holding `c`: its
/// name is the last component of the entry's full path, and its file is the regular file or the directory the
/// entry parses into, with that number.
pub open spec fn describes_entry(
    d: FileDirectoryEntry<Directory>,
    sb: SuperBlock,
    c: Seq<u8>,
    device_id: u32,
    i: int,
) -> bool {
    &&& names_entry(d.filename@, sb, c, i)
    &&& is_file_of_entry(d.file, sb, c, device_id, i)
}

/// Whether `name` is the last component of the full path of entry `i`.
pub open spec fn names_entry(name: Seq<u8>, sb: SuperBlock, c: Seq<u8>, i: int) -> bool {
    full_path_of(sb, c, i) matches Some(p) && name == last_component(p)
}

/// Whether `f` is the regular file or the directory that entry `i` parses into, with that number, of a
/// filesystem of super-block `sb` on device `device_id` holding `c`.
pub open spec fn is_file_of_entry(f: TypeWithFile<Directory>, sb: SuperBlock, c: Seq<u8>, device_id: u32, i: int) -> bool {
    &&& file_number(f) == i
    &&& match f {
        TypeWithFile::Regular(r) => r.spec_io_offset() == 0 && r.spec_super_block() == sb && r.spec_device_id()
            == device_id && entry_parses_to(sb, c, i, EntryTypeWithEntry::File(r.spec_entry())),
        TypeWithFile::Directory(e) => e.spec_super_block() == sb && e.spec_device_id() == device_id
            && entry_parses_to(sb, c, i, EntryTypeWithEntry::Directory(e.spec_entry())),
        _ => false,
    }
}

/// Number of bytes a read into a buffer of `buf_len` bytes asks for: the buffer's length or the file's,
/// whichever is smaller.
pub open spec fn read_len(buf_len: int, length: u64) -> int {
    if length < buf_len {
        length as int
    } else {
        buf_len
    }
}

/// Number of bytes the data blocks of a file entry span: none when its first block is not before its last.
pub open spec fn data_span(sb: SuperBlock, entry: FileEntry) -> int {
    if entry.data_starting_block < entry.data_ending_block {
        (entry.data_ending_block - entry.data_starting_block) * bytes_per_block_spec(sb.block_size)
    } else {
        0
    }
}

/// Number of bytes a read of a file into a buffer of `buf_len` bytes gives: that of [`read_len`], and no more
/// than the file's data blocks span.
pub open spec fn read_count(sb: SuperBlock, entry: FileEntry, buf_len: int) -> int {
    let wanted = read_len(buf_len, entry.length);
    if data_span(sb, entry) < wanted {
        data_span(sb, entry)
    } else {
        wanted
    }
}

/// The status of a file of an SFS filesystem: every file has all permissions, one link, the owner and group
/// zero, and the time stamp of the super-block for its three times.
pub open spec fn sfs_stat(device_id: u32, entry_number: u64, size: isize, sb: SuperBlock) -> Stat {
    let time = timestamp_to_timespec_spec(sb.time_stamp as int);
    Stat {
        dev: Dev(device_id),
        ino: Ino(entry_number),
        mode: Mode(0o777),
        nlink: Nlink(1),
        uid: Uid(0),
        gid: Gid(0),
        rdev: Dev(0),
        size: Off(size),
        atim: time,
        mtim: time,
        ctim: time,
        blksize: Blksize(bytes_per_block_spec(sb.block_size) as isize),
        blkcnt: Blkcnt(sb.total_blocks as i64),
    }
}

/// The status of a file (see [`sfs_stat`]).
fn file_stat(device_id: u32, entry_number: u64, size: isize, sb: &SuperBlock) -> (res: Stat)
    requires
        sb.has_small_blocks(),
    ensures
        res == sfs_stat(device_id, entry_number, size, *sb),
        res.dev == Dev(device_id) && res.ino == Ino(entry_number) && res.size == Off(size),
        res.mode == Mode(0o777) && res.nlink == Nlink(1) && res.uid == Uid(0) && res.gid == Gid(0),
        res.rdev == Dev(0),
        res.atim == timestamp_to_timespec_spec(sb.time_stamp as int),
        res.mtim == timestamp_to_timespec_spec(sb.time_stamp as int),
        res.ctim == timestamp_to_timespec_spec(sb.time_stamp as int),
        res.blksize == Blksize(bytes_per_block_spec(sb.block_size) as isize),
        res.blkcnt == Blkcnt(sb.total_blocks as i64),
{
    let time = timestamp_to_timespec(TimeStamp(sb.time_stamp));
    let bs = sb.bytes_per_block();
    Stat {
        dev: Dev(device_id),
        ino: Ino(entry_number),
        mode: Mode(0o777),
        nlink: Nlink(1),
        uid: Uid(0),
        gid: Gid(0),
        rdev: Dev(0),
        size: Off(size),
        atim: time,
        mtim: time,
        ctim: time,
        blksize: Blksize(bs as isize),
        blkcnt: Blkcnt(sb.total_blocks as i64),
    }
}

/// The three times in the status of an SFS file are the same instant, the one of the super-block's time stamp:
/// whole seconds rounded toward zero, then the nanoseconds of the remaining fraction of a second; a time stamp of a
/// whole number of seconds gives that number of seconds and no nanoseconds.
pub proof fn lemma_stat_times(device_id: u32, entry_number: u64, size: isize, sb: SuperBlock)
    ensures
        ({
            let st = sfs_stat(device_id, entry_number, size, sb);
            &&& st.atim == st.mtim && st.mtim == st.ctim
            &&& st.atim == timestamp_to_timespec_spec(sb.time_stamp as int)
            &&& sb.time_stamp >= 0 ==> st.atim.tv_sec.0 == sb.time_stamp / 65536
            &&& sb.time_stamp >= 0 ==> st.atim.nanos() <= sb.time_stamp * 1_000_000_000 / 65536 < st.atim.nanos() + 1
            &&& sb.time_stamp % 65536 == 0 ==> st.atim.tv_nsec == 0
        }),
{
    let ts = sb.time_stamp as int;
    let t = timestamp_to_timespec_spec(ts);
    if ts >= 0 {
        let q = ts / 65536;
        let r = ts % 65536;
        let ns = (r * 1_000_000_000) / 65536;
        assert(ts == q * 65536 + r && 0 <= r < 65536);
        assert(t.tv_sec.0 == q);
        assert(t.tv_nsec == ns);
        assert(q * 1_000_000_000 + ns <= ts * 1_000_000_000 / 65536 < q * 1_000_000_000 + ns + 1) by (nonlinear_arith)
            requires
                ts == q * 65536 + r,
                0 <= r < 65536,
                ns == (r * 1_000_000_000) / 65536,
        ;
    } else {
        if ts % 65536 == 0 {
            assert(abs(ts) % 65536 == 0) by {
                vstd::arithmetic::div_mod::lemma_mod_multiples_basic(-(ts / 65536), 65536);
                assert(abs(ts) == -(ts / 65536) * 65536);
            }
        }
    }
}

/// The size a regular file of `length` bytes reports: its length, or -1 when that does not fit.
pub open spec fn regular_size(length: u64) -> isize {
    if length <= isize::MAX {
        length as isize
    } else {
        -1isize
    }
}

/// A regular file of an SFS filesystem: its entry in the Index Area, its read/write offset, and what it
/// reports of its filesystem.
#[derive(Debug)]
pub struct Regular {
    entry_number: u64,
    entry: FileEntry,
    io_offset: u64,
    device_id: u32,
    super_block: SuperBlock,
}

impl Regular {
    /// The super-block gives a block size whose bytes fit on 32 bits.
    #[verifier::type_invariant]
    spec fn small_blocks(self) -> bool {
        self.super_block.has_small_blocks()
    }

    /// The entry of the file.
    pub closed spec fn spec_entry(&self) -> FileEntry {
        self.entry
    }

    /// The number of the file's entry.
    pub closed spec fn spec_entry_number(&self) -> u64 {
        self.entry_number
    }

    /// The read/write offset.
    pub closed spec fn spec_io_offset(&self) -> u64 {
        self.io_offset
    }

    /// Number of the device of the filesystem.
    pub closed spec fn spec_device_id(&self) -> u32 {
        self.device_id
    }

    /// Super-block of the filesystem.
    pub closed spec fn spec_super_block(&self) -> SuperBlock {
        self.super_block
    }

    /// The regular file of entry `entry_number` of `filesystem`, after checking the entry (see
    /// [`FileEntry::validity_check`]); the offset starts at zero.
    pub fn new<D: Device>(filesystem: &Sfs<D>, entry_number: u64, entry: FileEntry) -> (res: Result<
        Self,
        Error<SfsError>,
    >)
        requires
            filesystem.spec_super_block().areas_fit(),
        ensures
            res is Ok <==> fileentry_valid(
                filesystem.spec_super_block(),
                entry.entry_type,
                entry.path@,
                entry.data_starting_block,
                entry.data_ending_block,
                entry.length,
            ),
            res matches Ok(f) ==> f.spec_entry() == entry && f.spec_entry_number() == entry_number
                && f.spec_io_offset() == 0 && f.spec_super_block() == filesystem.spec_super_block()
                && f.spec_device_id() == filesystem.spec_device_id(),
            res matches Err(e) ==> fileentry_error(
                filesystem.spec_super_block(),
                entry.entry_type,
                entry.path@,
                entry.data_starting_block,
                entry.data_ending_block,
                entry.length,
                e,
            ),
    {
        match entry.validity_check(&filesystem.super_block) {
            Ok(()) => Ok(
                Regular {
                    entry_number,
                    entry,
                    io_offset: 0,
                    device_id: filesystem.device_id,
                    super_block: filesystem.super_block,
                },
            ),
            Err(e) => Err(e),
        }
    }

    /// The number of the file's entry.
    pub fn entry_number(&self) -> (res: u64)
        ensures
            res == self.spec_entry_number(),
    {
        self.entry_number
    }

    /// The read/write offset.
    pub fn io_offset(&self) -> (res: u64)
        ensures
            res == self.spec_io_offset(),
    {
        self.io_offset
    }

    /// Seeks in the file (see [`seek_in_file`]).
    pub fn seek(&mut self, pos: SeekFrom) -> (res: Result<u64, IoError>)
        requires
            old(self).spec_entry().length <= i64::MAX,
            seek_computable(old(self).spec_io_offset(), old(self).spec_entry().length as i64, pos),
        ensures
            final(self).spec_entry() == old(self).spec_entry(),
            final(self).spec_entry_number() == old(self).spec_entry_number(),
            final(self).spec_super_block() == old(self).spec_super_block(),
            final(self).spec_device_id() == old(self).spec_device_id(),
            seek_target(old(self).spec_io_offset(), old(self).spec_entry().length as i64, pos) is None ==> res
                == Err::<u64, IoError>(IoError::InvalidInput) && final(self).spec_io_offset() == old(self).spec_io_offset(),
            seek_target(old(self).spec_io_offset(), old(self).spec_entry().length as i64, pos) matches Some(t)
                ==> final(self).spec_io_offset() == t && res == (if t > old(self).spec_entry().length {
                Err::<u64, IoError>(IoError::InvalidInput)
            } else {
                Ok(old(self).spec_io_offset())
            }),
    {
        proof {
            use_type_invariant(&*self);
        }
        let length = self.entry.length;
        let mut offset = self.io_offset;
        let res = seek_in_file(&mut offset, length, pos);
        self.io_offset = offset;
        res
    }

    /// Reads the start of the file into `buf`, block by block from its first data block: as many bytes as the
    /// buffer or the file holds, whichever is smaller, and no more than its data blocks hold (see
    /// [`read_count`]). The offset then moves forward by that many bytes (see [`seek`](Regular::seek)), which
    /// fails when it passes the end of the file.
    ///
    /// Fails with the error of the device when it cannot be read.
    pub fn read<D: Device>(&mut self, fs: &mut Sfs<D>, buf: &mut [u8]) -> (res: Result<usize, IoError>)
        requires
            old(fs).spec_super_block().has_small_blocks(),
            old(self).spec_entry().data_ending_block * bytes_per_block_spec(old(fs).spec_super_block().block_size)
                <= u64::MAX,
            old(self).spec_entry().length <= i64::MAX,
            old(self).spec_io_offset() + read_count(
                old(fs).spec_super_block(),
                old(self).spec_entry(),
                old(buf)@.len() as int,
            ) <= i64::MAX,
        ensures
            final(fs).contents() == old(fs).contents(),
            final(fs).spec_super_block() == old(fs).spec_super_block(),
            final(fs).spec_device_id() == old(fs).spec_device_id(),
            final(self).spec_entry() == old(self).spec_entry(),
            final(self).spec_entry_number() == old(self).spec_entry_number(),
            final(self).spec_super_block() == old(self).spec_super_block(),
            final(self).spec_device_id() == old(self).spec_device_id(),
            final(buf)@.len() == old(buf)@.len(),
            ({
                let n = read_count(old(fs).spec_super_block(), old(self).spec_entry(), old(buf)@.len() as int);
                let start = old(self).spec_entry().data_starting_block * bytes_per_block_spec(
                    old(fs).spec_super_block().block_size,
                );
                &&& res is Ok ==> (n > 0 ==> start + n <= old(fs).contents().len())
                    && (forall|j: int| 0 <= j < n ==> #[trigger] final(buf)@[j] == old(fs).contents()[start + j])
                    && (forall|j: int| n <= j < old(buf)@.len() ==> #[trigger] final(buf)@[j] == old(buf)@[j])
                &&& res matches Ok(k) ==> k == n && final(self).spec_io_offset() == old(self).spec_io_offset() + n
                &&& old(self).spec_io_offset() + n > old(self).spec_entry().length ==> res is Err
                &&& res is Err ==> final(self).spec_io_offset() == old(self).spec_io_offset() || {
                    &&& old(self).spec_io_offset() + n > old(self).spec_entry().length
                    &&& res == Err::<usize, IoError>(IoError::InvalidInput)
                    &&& final(self).spec_io_offset() == old(self).spec_io_offset() + n
                }
            }),
    {
        proof {
            use_type_invariant(&*self);
        }
        let bs = fs.super_block.bytes_per_block();
        let ghost bsn = bs as int;
        let ghost c = fs.device.contents();
        let ghost initial = buf@;
        let length = self.entry.length;
        let buf_len = buf.len();
        let to_read: usize = if length < buf_len as u64 {
            length as usize
        } else {
            buf_len
        };
        let first = self.entry.data_starting_block;
        let stop = if first < self.entry.data_ending_block {
            self.entry.data_ending_block
        } else {
            first
        };
        let ghost start = first * bsn;
        let mut read_bytes: usize = 0;
        let mut block_index: u64 = first;
        proof {
            assert((block_index - first) * bsn == 0) by (nonlinear_arith)
                requires
                    block_index == first,
            ;
        }
        while block_index < stop
            invariant
                first <= block_index <= stop,
                bs == bsn,
                bsn >= 128,
                first < stop ==> stop * bsn <= u64::MAX,
                to_read <= buf_len,
                buf@.len() == buf_len,
                buf_len == initial.len(),
                initial == old(buf)@,
                read_bytes == (if (block_index - first) * bsn < to_read { (block_index - first) * bsn } else { to_read as int }),
                fs.device.contents() == c,
                old(fs).contents() == c,
                old(fs).spec_super_block() == fs.super_block,
                old(fs).spec_device_id() == fs.device_id,
                start == first * bsn,
                read_bytes > 0 ==> start + read_bytes <= c.len(),
                forall|j: int| 0 <= j < read_bytes ==> #[trigger] buf@[j] == c[start + j],
                forall|j: int| read_bytes <= j < buf_len ==> #[trigger] buf@[j] == initial[j],
            decreases stop - block_index,
        {
            let ghost before = buf@;
            let ghost pos = block_index * bsn;
            proof {
                assert((block_index - first) * bsn + bsn == (block_index + 1 - first) * bsn) by (nonlinear_arith);
                assert(block_index * bsn + bsn <= stop * bsn) by (nonlinear_arith)
                    requires
                        block_index < stop,
                        bsn >= 0,
                ;
                assert(block_index * bsn == start + (block_index - first) * bsn) by (nonlinear_arith)
                    requires
                        start == first * bsn,
                ;
            }
            let chunk_end: usize = if to_read - read_bytes < bs as usize {
                to_read
            } else {
                read_bytes + bs as usize
            };
            let chunk_len = chunk_end - read_bytes;
            let mut chunk: Vec<u8> = vec![0u8; chunk_len];
            let mut block = BlockWrapper::new_wrapper(block_index, bs);
            match block.read(&mut fs.device, chunk.as_mut_slice()) {
                Ok(_) => {},
                Err(e) => return Err(e),
            }
            proof {
                assert(chunk_len > 0 ==> pos == start + read_bytes);
            }
            let mut k: usize = 0;
            while k < chunk_len
                invariant
                    k <= chunk_len,
                    chunk@.len() == chunk_len,
                    chunk_len == chunk_end - read_bytes,
                    chunk_end <= buf_len,
                    buf@.len() == buf_len,
                    before.len() == buf_len,
                    forall|j: int| 0 <= j < read_bytes ==> #[trigger] buf@[j] == before[j],
                    forall|j: int| read_bytes <= j < read_bytes + k ==> #[trigger] buf@[j] == chunk@[j - read_bytes],
                    forall|j: int| read_bytes + k <= j < buf_len ==> #[trigger] buf@[j] == before[j],
                decreases chunk_len - k,
            {
                buf[read_bytes + k] = chunk[k];
                k = k + 1;
            }
            proof {
                assert forall|j: int| 0 <= j < chunk_end implies #[trigger] buf@[j] == c[start + j] by {
                    if j < read_bytes {
                        assert(before[j] == c[start + j]);
                    } else {
                        assert(buf@[j] == chunk@[j - read_bytes]);
                        assert(chunk@[j - read_bytes] == c.subrange(pos, pos + chunk_len)[j - read_bytes]);
                    }
                }
                assert forall|j: int| chunk_end <= j < buf_len implies #[trigger] buf@[j] == initial[j] by {
                    assert(buf@[j] == before[j]);
                    assert(before[j] == initial[j]);
                }
            }
            read_bytes = chunk_end;
            block_index = block_index + 1;
        }
        proof {
            assert(block_index == stop);
            assert(bsn == bytes_per_block_spec(fs.super_block.block_size));
            if first == stop {
                assert((stop - first) * bsn == 0) by (nonlinear_arith)
                    requires
                        first == stop,
                ;
            }
            assert(to_read == read_len(buf_len as int, self.entry.length));
            assert(read_bytes == read_count(fs.super_block, self.entry, buf_len as int));
        }
        let length = self.entry.length;
        let mut offset = self.io_offset;
        let moved = seek_in_file(&mut offset, length, SeekFrom::Current(read_bytes as i64));
        self.io_offset = offset;
        match moved {
            Ok(_) => Ok(read_bytes),
            Err(e) => Err(e),
        }
    }
}

impl Clone for Regular {
    fn clone(&self) -> (res: Self)
        ensures
            res == *self,
    {
        proof {
            use_type_invariant(self);
        }
        Regular {
            entry_number: self.entry_number,
            entry: self.entry,
            io_offset: self.io_offset,
            device_id: self.device_id,
            super_block: self.super_block,
        }
    }
}

impl Base for Regular {
    type FsError = SfsError;
}

impl FileRead for Regular {
    fn stat(&self) -> (res: Stat)
        ensures
            res == sfs_stat(
                self.spec_device_id(),
                self.spec_entry_number(),
                regular_size(self.spec_entry().length),
                self.spec_super_block(),
            ),
            res.ino == Ino(self.spec_entry_number()) && res.size == Off(regular_size(self.spec_entry().length)),
            res.atim == timestamp_to_timespec_spec(self.spec_super_block().time_stamp as int),
            res.mtim == timestamp_to_timespec_spec(self.spec_super_block().time_stamp as int),
            res.ctim == timestamp_to_timespec_spec(self.spec_super_block().time_stamp as int),
    {
        proof {
            use_type_invariant(self);
        }
        let size: isize = if self.entry.length <= isize::MAX as u64 {
            self.entry.length as isize
        } else {
            -1
        };
        file_stat(self.device_id, self.entry_number, size, &self.super_block)
    }

    fn get_type(&self) -> (res: Type)
        ensures
            res == Type::Regular,
    {
        Type::Regular
    }
}

impl RegularRead for Regular {}

/// A directory of an SFS filesystem: its entry in the Index Area, and what it reports of its filesystem.
#[derive(Debug)]
pub struct Directory {
    entry_number: u64,
    entry: DirectoryEntry,
    device_id: u32,
    super_block: SuperBlock,
}

impl Directory {
    /// The super-block gives a block size whose bytes fit on 32 bits.
    #[verifier::type_invariant]
    spec fn small_blocks(self) -> bool {
        self.super_block.has_small_blocks()
    }

    /// The entry of the directory.
    pub closed spec fn spec_entry(&self) -> DirectoryEntry {
        self.entry
    }

    /// The number of the directory's entry.
    pub closed spec fn spec_entry_number(&self) -> u64 {
        self.entry_number
    }

    /// Number of the device of the filesystem.
    pub closed spec fn spec_device_id(&self) -> u32 {
        self.device_id
    }

    /// Super-block of the filesystem.
    pub closed spec fn spec_super_block(&self) -> SuperBlock {
        self.super_block
    }

    /// The directory of entry `entry_number` of `filesystem`, after checking the entry (see
    /// [`DirectoryEntry::validity_check`]).
    pub fn new<D: Device>(filesystem: &Sfs<D>, entry_number: u64, entry: DirectoryEntry) -> (res: Result<
        Self,
        Error<SfsError>,
    >)
        requires
            filesystem.spec_super_block().has_small_blocks(),
        ensures
            res is Ok <==> entry_type_of(entry.entry_type) == EntryType::Directory && name_field_ok(entry.path@),
            res matches Ok(d) ==> d.spec_entry() == entry && d.spec_entry_number() == entry_number
                && d.spec_super_block() == filesystem.spec_super_block() && d.spec_device_id()
                == filesystem.spec_device_id(),
            entry_type_of(entry.entry_type) != EntryType::Directory ==> res == Err::<Self, Error<SfsError>>(
                wrong_type(EntryType::Directory, entry.entry_type),
            ),
            entry_type_of(entry.entry_type) == EntryType::Directory && !name_field_ok(entry.path@) ==> (res matches Err(
                e,
            ) && name_field_error(entry.path@, e)),
    {
        match entry.validity_check(&filesystem.super_block) {
            Ok(()) => Ok(
                Directory { entry_number, entry, device_id: filesystem.device_id, super_block: filesystem.super_block },
            ),
            Err(e) => Err(e),
        }
    }

    /// The number of the directory's entry.
    pub fn entry_number(&self) -> (res: u64)
        ensures
            res == self.spec_entry_number(),
    {
        self.entry_number
    }

    /// The files of the directory: each directory or file entry of `fs` whose full path starts with the
    /// directory's own (see [`find_all_entries`]), in the order of the Index Area, named by the last component
    /// of its path (see [`describes_entry`]).
    ///
    /// Fails with [`SfsError::NameStringExpected`] when the directory's own entry holds no path, with the error
    /// of the first entry that is ill-formed or whose full path cannot be read, and with [`Error::IO`] when the
    /// device cannot be read.
    pub fn entries<D: Device>(&self, fs: &mut Sfs<D>) -> (res: Result<
        Vec<FileDirectoryEntry<Directory>>,
        Error<SfsError>,
    >)
        requires
            index_ready(old(fs).spec_super_block()),
            entries_checkable(old(fs).spec_super_block(), old(fs).contents()),
            paths_indexable(old(fs).spec_super_block(), old(fs).contents()),
            full_path_indexes_ok(old(fs).spec_super_block(), old(fs).contents(), self.spec_entry_number() as int),
        ensures
            final(fs).contents() == old(fs).contents(),
            final(fs).spec_super_block() == old(fs).spec_super_block(),
            final(fs).spec_device_id() == old(fs).spec_device_id(),
            ({
                let sb = old(fs).spec_super_block();
                let c = old(fs).contents();
                let n = self.spec_entry_number() as int;
                &&& !(res matches Err(Error::IO(_))) ==> (res is Ok <==> full_path_valid(sb, c, n) && path_head(
                    entry_bytes_in(sb, c, n),
                ) is Some && index_listable(sb, c))
                &&& res matches Ok(v) ==> (full_path_of(sb, c, n) matches Some(dir) && {
                    &&& forall|k: int|
                        0 <= k < v@.len() ==> is_entry_index(sb, file_number((#[trigger] v@[k]).file)) && listed_under(
                            sb,
                            c,
                            file_number(v@[k].file),
                            dir,
                        ) && describes_entry(v@[k], sb, c, old(fs).spec_device_id(), file_number(v@[k].file))
                    &&& forall|k: int, l: int|
                        0 <= k < l < v@.len() ==> file_number((#[trigger] v@[k]).file) < file_number(
                            (#[trigger] v@[l]).file,
                        )
                    &&& forall|i: int|
                        #[trigger] is_entry_index(sb, i) && listed_under(sb, c, i, dir) ==> exists|k: int|
                            0 <= k < v@.len() && file_number((#[trigger] v@[k]).file) == i
                })
            }),
    {
        let sb = fs.super_block;
        let ghost c = fs.device.contents();
        let ghost n = self.entry_number as int;
        let dir_name = match parse_full_path(&mut fs.device, &sb, self.entry_number) {
            Ok(Some(name)) => name,
            Ok(None) => {
                return Err(Error::Fs(FsError::Implementation(SfsError::NameStringExpected(self.entry_number))));
            },
            Err(e) => return Err(e),
        };
        let dir = dir_name.as_bytes();
        let under = |entry: EntryTypeWithEntry, idx: u64, device: &mut D| -> (r: Result<bool, Error<SfsError>>)
            requires
                index_ready(sb),
                entries_checkable(sb, old(device).contents()),
                paths_indexable(sb, old(device).contents()),
                is_entry_index(sb, idx as int),
                entry_parses_to(sb, old(device).contents(), idx as int, entry),
            ensures
                final(device).contents() == old(device).contents(),
                r matches Ok(b) ==> (holds_file(sb, old(device).contents(), idx as int) ==> full_path_valid(
                    sb,
                    old(device).contents(),
                    idx as int,
                )) && (b <==> listed_under(sb, old(device).contents(), idx as int, dir@)),
                r matches Err(e) ==> !(e matches Error::IO(_)) ==> holds_file(
                    sb,
                    old(device).contents(),
                    idx as int,
                ) && !full_path_valid(sb, old(device).contents(), idx as int),
        {
            let is_file = match entry {
                EntryTypeWithEntry::Directory(_) => true,
                EntryTypeWithEntry::File(_) => true,
                _ => false,
            };
            if !is_file {
                return Ok(false);
            }
            proof {
                assert(full_path_indexes_ok(sb, device.contents(), idx as int));
            }
            match parse_full_path(device, &sb, idx) {
                Ok(Some(name)) => Ok(has_prefix(name.as_bytes(), dir)),
                Ok(None) => Err(Error::Fs(FsError::Implementation(SfsError::NameStringExpected(idx)))),
                Err(e) => Err(e),
            }
        };
        let found = match find_all_entries(&mut fs.device, &sb, under) {
            Ok(v) => v,
            Err(e) => {
                proof {
                    if !(e matches Error::IO(_)) {
                        let i = choose|i: int|
                            #[trigger] is_entry_index(sb, i) && answered_until(sb, c, under, i) && scan_error_at(
                                sb,
                                c,
                                under,
                                i,
                                e,
                            );
                        if entry_readable(sb, c, i) && !entry_bytes_valid(sb, entry_bytes_in(sb, c, i))
                            && entry_bytes_error(sb, entry_bytes_in(sb, c, i), e) {
                            assert(!index_entry_valid(sb, c, i));
                        } else {
                            let f = choose|f: EntryTypeWithEntry|
                                entry_parses_to(sb, c, i, f) && #[trigger] answers(under, f, i as u64, c, Err(e));
                            let x = choose|x: &mut D|
                                #[trigger] x.contents() == c && call_ensures(under, (f, i as u64, x), Err(e));
                            assert(holds_file(sb, c, i) && !full_path_valid(sb, c, i));
                        }
                        assert(!index_listable(sb, c));
                    }
                }
                return Err(e);
            },
        };
        proof {
            assert forall|i: int| #[trigger] is_entry_index(sb, i) implies index_entry_valid(sb, c, i) && (holds_file(
                sb,
                c,
                i,
            ) ==> full_path_valid(sb, c, i)) && (listed_under(sb, c, i, dir@) <==> listed(found@, i)) by {
                if listed(found@, i) {
                    let k = choose|k: int| 0 <= k < found@.len() && found@[k].1 == i;
                    assert(found@[k] == found@[k]);
                    let x = choose|x: &mut D|
                        #[trigger] x.contents() == c && call_ensures(under, (found@[k].0, found@[k].1, x), Ok(true));
                } else {
                    let f = choose|f: EntryTypeWithEntry|
                        #[trigger] entry_parses_to(sb, c, i, f) && answers(under, f, i as u64, c, Ok(false));
                    let x = choose|x: &mut D|
                        #[trigger] x.contents() == c && call_ensures(under, (f, i as u64, x), Ok(false));
                }
            }
            assert forall|k: int| 0 <= k < found@.len() implies listed_under(sb, c, (#[trigger] found@[k]).1 as int, dir@)
                && full_path_valid(sb, c, found@[k].1 as int) by {
                assert(is_entry_index(sb, found@[k].1 as int));
                assert(listed(found@, found@[k].1 as int));
            }
        }
        let mut ret: Vec<FileDirectoryEntry<Directory>> = Vec::new();
        let mut k: usize = 0;
        while k < found.len()
            invariant
                k <= found@.len(),
                ret@.len() == k,
                fs.device.contents() == c,
                fs.super_block == sb,
                old(fs).contents() == c,
                old(fs).spec_super_block() == sb,
                old(fs).spec_device_id() == fs.device_id,
                index_ready(sb),
                entries_checkable(sb, c),
                paths_indexable(sb, c),
                full_path_of(sb, c, n) == Some(dir@),
                forall|j: int|
                    0 <= j < found@.len() ==> 1 <= (#[trigger] found@[j]).1 <= entry_count(sb) && entry_parses_to(
                        sb,
                        c,
                        found@[j].1 as int,
                        found@[j].0,
                    ) && listed_under(sb, c, found@[j].1 as int, dir@) && full_path_valid(sb, c, found@[j].1 as int),
                forall|j: int|
                    0 <= j < k ==> file_number((#[trigger] ret@[j]).file) == found@[j].1 && describes_entry(
                        ret@[j],
                        sb,
                        c,
                        fs.device_id,
                        found@[j].1 as int,
                    ),
            decreases found@.len() - k,
        {
            let (entry, idx) = found[k];
            proof {
                assert(is_entry_index(sb, idx as int));
                assert(full_path_indexes_ok(sb, c, idx as int));
            }
            let name = match parse_full_path(&mut fs.device, &sb, idx) {
                Ok(Some(p)) => p,
                Ok(None) => {
                    return Err(Error::Fs(FsError::Implementation(SfsError::NameStringExpected(idx))));
                },
                Err(e) => return Err(e),
            };
            let filename = last_component_of(name.as_bytes());
            let file = match entry {
                EntryTypeWithEntry::File(f) => match Regular::new(fs, idx, f) {
                    Ok(r) => TypeWithFile::Regular(r),
                    Err(e) => return Err(e),
                },
                EntryTypeWithEntry::Directory(d) => match Directory::new(fs, idx, d) {
                    Ok(d) => TypeWithFile::Directory(d),
                    Err(e) => return Err(e),
                },
                _ => {
                    return Err(Error::Fs(FsError::Implementation(SfsError::EntryTypeNotFile(entry.variant()))));
                },
            };
            ret.push(FileDirectoryEntry { filename, file });
            k = k + 1;
        }
        proof {
            assert forall|i: int| #[trigger] is_entry_index(sb, i) && listed_under(sb, c, i, dir@) implies exists|j: int|
                0 <= j < ret@.len() && file_number((#[trigger] ret@[j]).file) == i by {
                let j = choose|j: int| 0 <= j < found@.len() && found@[j].1 == i;
                assert(file_number(ret@[j].file) == i);
            }
        }
        Ok(ret)
    }

    /// The file of the directory named `name`: the first of [`entries`](Directory::entries) with that name, or
    /// `None` when there is none. Fails as [`entries`](Directory::entries) does.
    pub fn entry<D: Device>(&self, fs: &mut Sfs<D>, name: &[u8]) -> (res: Result<
        Option<TypeWithFile<Directory>>,
        Error<SfsError>,
    >)
        requires
            index_ready(old(fs).spec_super_block()),
            entries_checkable(old(fs).spec_super_block(), old(fs).contents()),
            paths_indexable(old(fs).spec_super_block(), old(fs).contents()),
            full_path_indexes_ok(old(fs).spec_super_block(), old(fs).contents(), self.spec_entry_number() as int),
        ensures
            final(fs).contents() == old(fs).contents(),
            final(fs).spec_super_block() == old(fs).spec_super_block(),
            final(fs).spec_device_id() == old(fs).spec_device_id(),
            ({
                let sb = old(fs).spec_super_block();
                let c = old(fs).contents();
                let n = self.spec_entry_number() as int;
                &&& !(res matches Err(Error::IO(_))) ==> (res is Ok <==> full_path_valid(sb, c, n) && path_head(
                    entry_bytes_in(sb, c, n),
                ) is Some && index_listable(sb, c))
                &&& res matches Ok(found) ==> (full_path_of(sb, c, n) matches Some(dir) && {
                    &&& found matches Some(f) ==> {
                        &&& is_entry_index(sb, file_number(f))
                        &&& listed_under(sb, c, file_number(f), dir)
                        &&& names_entry(name@, sb, c, file_number(f))
                        &&& is_file_of_entry(f, sb, c, old(fs).spec_device_id(), file_number(f))
                        &&& forall|i: int|
                            #[trigger] is_entry_index(sb, i) && i < file_number(f) && listed_under(sb, c, i, dir)
                                ==> !names_entry(name@, sb, c, i)
                    }
                    &&& found is None ==> forall|i: int|
                        #[trigger] is_entry_index(sb, i) && listed_under(sb, c, i, dir) ==> !names_entry(
                            name@,
                            sb,
                            c,
                            i,
                        )
                })
            }),
    {
        let mut children = match self.entries(fs) {
            Ok(v) => v,
            Err(e) => return Err(e),
        };
        let ghost sb = fs.super_block;
        let ghost c = fs.device.contents();
        let ghost dir = full_path_of(sb, c, self.entry_number as int)->0;
        let ghost device_id = fs.device_id;
        let ghost listing = children@;
        let mut k: usize = 0;
        while k < children.len()
            invariant
                children@ == listing,
                k <= listing.len(),
                fs.device.contents() == c,
                old(fs).contents() == c,
                fs.super_block == sb,
                old(fs).spec_super_block() == sb,
                old(fs).spec_device_id() == device_id,
                fs.device_id == device_id,
                full_path_valid(sb, c, self.entry_number as int),
                path_head(entry_bytes_in(sb, c, self.entry_number as int)) is Some,
                index_listable(sb, c),
                full_path_of(sb, c, self.entry_number as int) == Some(dir),
                forall|j: int| 0 <= j < k ==> (#[trigger] listing[j]).filename@ != name@,
                forall|j: int|
                    0 <= j < listing.len() ==> is_entry_index(sb, file_number((#[trigger] listing[j]).file))
                        && listed_under(sb, c, file_number(listing[j].file), dir) && describes_entry(
                        listing[j],
                        sb,
                        c,
                        device_id,
                        file_number(listing[j].file),
                    ),
                forall|j: int, l: int|
                    0 <= j < l < listing.len() ==> file_number((#[trigger] listing[j]).file) < file_number(
                        (#[trigger] listing[l]).file,
                    ),
                forall|i: int|
                    #[trigger] is_entry_index(sb, i) && listed_under(sb, c, i, dir) ==> exists|j: int|
                        0 <= j < listing.len() && file_number((#[trigger] listing[j]).file) == i,
            decreases listing.len() - k,
        {
            if bytes_equal(children[k].filename.as_slice(), name) {
                let found = children.remove(k);
                proof {
                    assert(found == listing[k as int]);
                    assert forall|i: int|
                        #[trigger] is_entry_index(sb, i) && i < file_number(found.file) && listed_under(sb, c, i, dir)
                            implies !names_entry(name@, sb, c, i) by {
                        let j = choose|j: int| 0 <= j < listing.len() && file_number((#[trigger] listing[j]).file) == i;
                        if j >= k {
                            if j > k {
                                assert(file_number(listing[k as int].file) < file_number(listing[j].file));
                            }
                        } else {
                            assert(listing[j].filename@ != name@);
                        }
                    }
                }
                return Ok(Some(found.file));
            }
            k = k + 1;
        }
        proof {
            assert forall|i: int| #[trigger] is_entry_index(sb, i) && listed_under(sb, c, i, dir) implies !names_entry(
                name@,
                sb,
                c,
                i,
            ) by {
                let j = choose|j: int| 0 <= j < listing.len() && file_number((#[trigger] listing[j]).file) == i;
                assert(listing[j].filename@ != name@);
            }
        }
        Ok(None)
    }
}

impl Clone for Directory {
    fn clone(&self) -> (res: Self)
        ensures
            res == *self,
    {
        proof {
            use_type_invariant(self);
        }
        Directory {
            entry_number: self.entry_number,
            entry: self.entry,
            device_id: self.device_id,
            super_block: self.super_block,
        }
    }
}

impl Base for Directory {
    type FsError = SfsError;
}

impl FileRead for Directory {
    fn stat(&self) -> (res: Stat)
        ensures
            res == sfs_stat(self.spec_device_id(), self.spec_entry_number(), 0, self.spec_super_block()),
            res.ino == Ino(self.spec_entry_number()) && res.size == Off(0),
            res.atim == timestamp_to_timespec_spec(self.spec_super_block().time_stamp as int),
            res.mtim == timestamp_to_timespec_spec(self.spec_super_block().time_stamp as int),
            res.ctim == timestamp_to_timespec_spec(self.spec_super_block().time_stamp as int),
    {
        proof {
            use_type_invariant(self);
        }
        file_stat(self.device_id, self.entry_number, 0, &self.super_block)
    }

    fn get_type(&self) -> (res: Type)
        ensures
            res == Type::Directory,
    {
        Type::Directory
    }
}

/// The status with every field zero.
pub open spec fn zero_stat_spec() -> Stat {
    let time = Timespec { tv_sec: Time(0), tv_nsec: 0 };
    Stat {
        dev: Dev(0),
        ino: Ino(0),
        mode: Mode(0),
        nlink: Nlink(0),
        uid: Uid(0),
        gid: Gid(0),
        rdev: Dev(0),
        size: Off(0),
        atim: time,
        mtim: time,
        ctim: time,
        blksize: Blksize(0),
        blkcnt: Blkcnt(0),
    }
}

/// The status with every field zero (see [`zero_stat_spec`]).
fn zero_stat() -> (res: Stat)
    ensures
        res == zero_stat_spec(),
{
    let time = Timespec { tv_sec: Time(0), tv_nsec: 0 };
    Stat {
        dev: Dev(0),
        ino: Ino(0),
        mode: Mode(0),
        nlink: Nlink(0),
        uid: Uid(0),
        gid: Gid(0),
        rdev: Dev(0),
        size: Off(0),
        atim: time,
        mtim: time,
        ctim: time,
        blksize: Blksize(0),
        blkcnt: Blkcnt(0),
    }
}

/// Block devices do not exist in SFS: no value of this type can be made, as its invariant never holds.
pub struct BlockDevice {
    none: (),
}

impl BlockDevice {
    /// No value satisfies this.
    #[verifier::type_invariant]
    spec fn made(self) -> bool {
        false
    }
}

/// Character devices do not exist in SFS: no value of this type can be made, as its invariant never holds.
pub struct CharacterDevice {
    none: (),
}

impl CharacterDevice {
    /// No value satisfies this.
    #[verifier::type_invariant]
    spec fn made(self) -> bool {
        false
    }
}

/// Fifos do not exist in SFS: no value of this type can be made, as its invariant never holds.
pub struct Fifo {
    none: (),
}

impl Fifo {
    /// No value satisfies this.
    #[verifier::type_invariant]
    spec fn made(self) -> bool {
        false
    }
}

/// UNIX sockets do not exist in SFS: no value of this type can be made, as its invariant never holds.
pub struct Socket {
    none: (),
}

impl Socket {
    /// No value satisfies this.
    #[verifier::type_invariant]
    spec fn made(self) -> bool {
        false
    }
}

/// Symbolic links do not exist in SFS: no value of this type can be made, as its invariant never holds.
pub struct SymbolicLink {
    none: (),
}

impl SymbolicLink {
    /// No value satisfies this.
    #[verifier::type_invariant]
    spec fn made(self) -> bool {
        false
    }
}

impl Base for BlockDevice {
    type FsError = SfsError;
}

impl FileRead for BlockDevice {
    fn stat(&self) -> (res: Stat)
        ensures
            res == zero_stat_spec(),
    {
        proof {
            use_type_invariant(self);
        }
        zero_stat()
    }

    fn get_type(&self) -> (res: Type)
        ensures
            res == Type::BlockDevice,
    {
        Type::BlockDevice
    }
}

impl crate::fs::file::BlockDeviceRead for BlockDevice {}

impl Base for CharacterDevice {
    type FsError = SfsError;
}

impl FileRead for CharacterDevice {
    fn stat(&self) -> (res: Stat)
        ensures
            res == zero_stat_spec(),
    {
        proof {
            use_type_invariant(self);
        }
        zero_stat()
    }

    fn get_type(&self) -> (res: Type)
        ensures
            res == Type::CharacterDevice,
    {
        Type::CharacterDevice
    }
}

impl crate::fs::file::CharacterDeviceRead for CharacterDevice {}

impl Base for Fifo {
    type FsError = SfsError;
}

impl FileRead for Fifo {
    fn stat(&self) -> (res: Stat)
        ensures
            res == zero_stat_spec(),
    {
        proof {
            use_type_invariant(self);
        }
        zero_stat()
    }

    fn get_type(&self) -> (res: Type)
        ensures
            res == Type::Fifo,
    {
        Type::Fifo
    }
}

impl crate::fs::file::FifoRead for Fifo {}

impl Base for Socket {
    type FsError = SfsError;
}

impl FileRead for Socket {
    fn stat(&self) -> (res: Stat)
        ensures
            res == zero_stat_spec(),
    {
        proof {
            use_type_invariant(self);
        }
        zero_stat()
    }

    fn get_type(&self) -> (res: Type)
        ensures
            res == Type::Socket,
    {
        Type::Socket
    }
}

impl crate::fs::file::SocketRead for Socket {}

impl Base for SymbolicLink {
    type FsError = SfsError;
}

impl FileRead for SymbolicLink {
    fn stat(&self) -> (res: Stat)
        ensures
            res == zero_stat_spec(),
    {
        proof {
            use_type_invariant(self);
        }
        zero_stat()
    }

    fn get_type(&self) -> (res: Type)
        ensures
            res == Type::SymbolicLink,
    {
        Type::SymbolicLink
    }
}

impl crate::fs::file::SymbolicLinkRead for SymbolicLink {}

impl DirectoryRead for Directory {
    type Regular = Regular;
    type SymbolicLink = SymbolicLink;
    type Fifo = Fifo;
    type CharacterDevice = CharacterDevice;
    type BlockDevice = BlockDevice;
    type Socket = Socket;
}

} // verus!
