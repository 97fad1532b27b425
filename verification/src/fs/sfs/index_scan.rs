//! Reading the entries of the Index Area from the device: one entry, the full path of an entry, and the
//! entries that satisfy a predicate.
//!
//! The entries are indexed in the order of the Index Area, i.e. in the reverse order of the device: entry `i`
//! is stored in the 64 bytes that start `64 * i` bytes before the end of the volume.

use vstd::prelude::*;

use crate::dev::address::{lemma_address_ops, Address};
use crate::dev::Device;
use crate::error::{Error, FsError};
use crate::fs::sfs::error::SfsError;
use crate::fs::sfs::index_area::{
    entry_bytes_checkable, entry_bytes_error, entry_bytes_valid, entry_matches_bytes, entry_type_of, le64,
    read_u64_at, unusable_checkable, unusable_region_valid, EntryType, EntryTypeWithEntry,
};
use crate::fs::sfs::name_string::{nul_cut, NameString};
use crate::fs::sfs::super_block::{bytes_per_block_spec, SuperBlock};

verus! {

/// Size in bytes of the volume.
pub open spec fn volume_bytes(sb: SuperBlock) -> int {
    sb.total_blocks * bytes_per_block_spec(sb.block_size)
}

/// Address of entry `i`.
pub open spec fn entry_addr(sb: SuperBlock, i: int) -> int {
    volume_bytes(sb) - 64 * i
}

/// Whether the device holds the 64 bytes of entry `i`.
pub open spec fn entry_readable(sb: SuperBlock, c: Seq<u8>, i: int) -> bool {
    0 <= entry_addr(sb, i) && entry_addr(sb, i) + 64 <= c.len()
}

/// The 64 bytes of entry `i` on a device holding `c`.
pub open spec fn entry_bytes_in(sb: SuperBlock, c: Seq<u8>, i: int) -> Seq<u8> {
    c.subrange(entry_addr(sb, i), entry_addr(sb, i) + 64)
}

/// Whether entry `i` is on the device and well-formed.
pub open spec fn index_entry_valid(sb: SuperBlock, c: Seq<u8>, i: int) -> bool {
    entry_readable(sb, c, i) && entry_bytes_valid(sb, entry_bytes_in(sb, c, i))
}

/// Whether every entry slot of the volume that the device holds can be checked (see
/// [`entry_bytes_checkable`]).
pub open spec fn entries_checkable(sb: SuperBlock, c: Seq<u8>) -> bool {
    forall|i: int|
        entry_index_ok(sb, i) && entry_readable(sb, c, i) ==> entry_bytes_checkable(
            sb,
            #[trigger] entry_bytes_in(sb, c, i),
        )
}

/// Whether the super-block locates the Index Area within a volume whose size fits on 64 bits.
pub open spec fn index_ready(sb: SuperBlock) -> bool {
    &&& sb.size_fits()
    &&& sb.areas_fit()
    &&& sb.index_size <= volume_bytes(sb)
}

/// Checks whether the super-block locates the Index Area within a volume whose size fits on 64 bits.
pub fn index_ready_check(super_block: &SuperBlock) -> (res: bool)
    ensures
        res == index_ready(*super_block),
{
    if super_block.block_size > 24 {
        return false;
    }
    let bpb = super_block.bytes_per_block() as u64;
    let volume = match super_block.total_blocks.checked_mul(bpb) {
        Some(v) => v,
        None => return false,
    };
    if super_block.data_size > u64::MAX - (super_block.rsvd_blocks as u64) {
        return false;
    }
    let whole = super_block.index_size / bpb;
    let partial: u64 = if super_block.index_size % bpb == 0 { 0 } else { 1 };
    if super_block.total_blocks < whole || super_block.total_blocks - whole < partial {
        return false;
    }
    super_block.index_size <= volume
}

/// Whether the address of entry `i` and the end of its bytes can be computed.
pub open spec fn entry_index_ok(sb: SuperBlock, i: int) -> bool {
    0 <= 64 * i <= volume_bytes(sb) && entry_addr(sb, i) + 64 <= u64::MAX
}

/// What a parsed entry is, given the bytes it was parsed from: valid exactly when the bytes are, of the type
/// their first byte gives, with their fields, or with the error of the bytes.
pub open spec fn parsed_from(res: Result<EntryTypeWithEntry, Error<SfsError>>, sb: SuperBlock, b: Seq<u8>) -> bool {
    &&& res is Ok <==> entry_bytes_valid(sb, b)
    &&& res matches Ok(e) ==> e.variant_spec() == entry_type_of(b[0]) && entry_matches_bytes(e, b)
    &&& res matches Err(err) ==> entry_bytes_error(sb, b, err)
}

/// Whether an error is neither [`SfsError::NoRoot`] nor [`SfsError::WrongEntryType`].
pub open spec fn plain_error(err: Error<SfsError>) -> bool {
    &&& !(err matches Error::Fs(FsError::Implementation(SfsError::NoRoot)))
    &&& !(err matches Error::Fs(FsError::Implementation(SfsError::WrongEntryType { .. })))
}

/// The error of ill-formed entry bytes is about the entry's own fields: it never reports a wrong type, since
/// the bytes are parsed as the type they denote.
pub proof fn lemma_entry_error_plain(sb: SuperBlock, b: Seq<u8>, err: Error<SfsError>)
    requires
        entry_bytes_error(sb, b, err),
    ensures
        plain_error(err),
{
}

impl EntryTypeWithEntry {
    /// Reads and parses entry `index` of the Index Area; a failed read gives [`Error::IO`].
    pub fn parse<D: Device>(device: &mut D, super_block: &SuperBlock, index: u64) -> (res: Result<
        Self,
        Error<SfsError>,
    >)
        requires
            index_ready(*super_block),
            entry_index_ok(*super_block, index as int),
            entries_checkable(*super_block, old(device).contents()),
        ensures
            final(device).contents() == old(device).contents(),
            !(res matches Err(Error::IO(_))) ==> entry_readable(*super_block, old(device).contents(), index as int)
                && parsed_from(res, *super_block, entry_bytes_in(*super_block, old(device).contents(), index as int)),
            res matches Err(err) ==> plain_error(err),
    {
        let start = EntryTypeWithEntry::starting_addr(super_block, index);
        proof {
            lemma_address_ops(start, start, 64);
        }
        let end = start + 64u64;
        let slice = match device.slice(start..end) {
            Ok(s) => s,
            Err(e) => return Err(Error::IO(e)),
        };
        let bytes = slice.as_bytes();
        let mut arr = [0u8; 64];
        let mut i: usize = 0;
        while i < 64
            invariant
                bytes@.len() == 64,
                i <= 64,
                forall|k: int| 0 <= k < i ==> arr@[k] == bytes@[k],
            decreases 64 - i,
        {
            arr[i] = bytes[i];
            i = i + 1;
        }
        assert(arr@ =~= bytes@);
        proof {
            let c = device.contents();
            assert(entry_readable(*super_block, c, index as int));
            assert(entry_bytes_in(*super_block, c, index as int) == bytes@);
        }
        let res = EntryTypeWithEntry::parse_bytes(arr, super_block);
        proof {
            if res is Err {
                lemma_entry_error_plain(*super_block, arr@, res->Err_0);
            }
        }
        res
    }
}

/// The path field and the number of continuation entries of an entry that holds a path, given its bytes.
pub open spec fn path_head(b: Seq<u8>) -> Option<(Seq<u8>, int)> {
    match entry_type_of(b[0]) {
        EntryType::Directory => Some((b.subrange(10, 64), b[1] as int)),
        EntryType::DeletedDirectory => Some((b.subrange(10, 64), b[1] as int)),
        EntryType::File => Some((b.subrange(34, 64), b[1] as int)),
        EntryType::DeletedFile => Some((b.subrange(34, 64), b[1] as int)),
        EntryType::Continuation(_) => Some((b, 0)),
        _ => None,
    }
}

/// The names held by the `k` continuation entries that follow entry `n`, one after the other.
pub open spec fn continuation_names(sb: SuperBlock, c: Seq<u8>, n: int, k: int) -> Seq<u8>
    decreases k,
{
    if k <= 0 {
        Seq::empty()
    } else {
        continuation_names(sb, c, n, k - 1) + nul_cut(entry_bytes_in(sb, c, n + k)).drop_last()
    }
}

/// Whether entry `i` is on the device, well-formed, and a continuation entry.
pub open spec fn continuation_valid(sb: SuperBlock, c: Seq<u8>, i: int) -> bool {
    index_entry_valid(sb, c, i) && entry_bytes_in(sb, c, i)[0] >= 0x20
}

/// Whether the full path of entry `n` can be read: the entry is valid, and when it holds a path, each of its
/// continuation entries is a valid continuation entry.
pub open spec fn full_path_valid(sb: SuperBlock, c: Seq<u8>, n: int) -> bool {
    &&& index_entry_valid(sb, c, n)
    &&& path_head(entry_bytes_in(sb, c, n)) matches Some((p, k)) ==> forall|j: int|
        1 <= j <= k ==> #[trigger] continuation_valid(sb, c, n + j)
}

/// Whether the indexes that reading the full path of entry `n` visits can be computed.
pub open spec fn full_path_indexes_ok(sb: SuperBlock, c: Seq<u8>, n: int) -> bool {
    &&& entry_index_ok(sb, n)
    &&& entry_readable(sb, c, n) ==> (path_head(entry_bytes_in(sb, c, n)) matches Some((_, k)) ==> 64 * (n + k)
        <= volume_bytes(sb) && n + k <= u64::MAX)
}

/// Returns the full path of entry `entry_number`, its continuation entries joined to it, or `None` when the
/// entry holds no path.
///
/// Fails with the error of the entry when it or one of its continuation entries is ill-formed, with
/// [`SfsError::WrongEntryType`] when an entry that should continue the path is not a continuation entry,
/// and with [`Error::IO`] when the device cannot be read.
pub fn parse_full_path<D: Device>(device: &mut D, super_block: &SuperBlock, entry_number: u64) -> (res: Result<
    Option<NameString>,
    Error<SfsError>,
>)
    requires
        index_ready(*super_block),
        entries_checkable(*super_block, old(device).contents()),
        full_path_indexes_ok(*super_block, old(device).contents(), entry_number as int),
    ensures
        final(device).contents() == old(device).contents(),
        ({
            let c = old(device).contents();
            let n = entry_number as int;
            &&& !(res matches Err(Error::IO(_))) ==> (res is Ok <==> full_path_valid(*super_block, c, n))
            &&& res matches Ok(None) ==> path_head(entry_bytes_in(*super_block, c, n)) is None
            &&& res matches Ok(Some(name)) ==> (path_head(entry_bytes_in(*super_block, c, n)) matches Some((p, k))
                && name@ == nul_cut(p).drop_last() + continuation_names(*super_block, c, n, k))
        }),
        res matches Err(err) ==> !(err matches Error::Fs(FsError::Implementation(SfsError::NoRoot))),
        res matches Err(Error::Fs(FsError::Implementation(SfsError::WrongEntryType { expected, .. }))) ==> expected
            == EntryType::Continuation(0x20),
{
    let ghost c = device.contents();
    let ghost n = entry_number as int;
    let entry = match EntryTypeWithEntry::parse(device, super_block, entry_number) {
        Ok(e) => e,
        Err(e) => return Err(e),
    };
    let ghost b = entry_bytes_in(*super_block, c, n);
    let (mut name, continuation_nb) = match entry {
        EntryTypeWithEntry::Directory(d) => match d.parse_path() {
            Ok(p) => (p, d.continuation_nb as u64),
            Err(e) => return Err(e),
        },
        EntryTypeWithEntry::File(f) => match f.parse_path() {
            Ok(p) => (p, f.continuation_nb as u64),
            Err(e) => return Err(e),
        },
        EntryTypeWithEntry::DeletedDirectory(d) => match d.parse_path() {
            Ok(p) => (p, d.continuation_nb as u64),
            Err(e) => return Err(e),
        },
        EntryTypeWithEntry::DeletedFile(f) => match f.parse_path() {
            Ok(p) => (p, f.continuation_nb as u64),
            Err(e) => return Err(e),
        },
        EntryTypeWithEntry::Continuation(cont) => match cont.parse_entry_name() {
            Ok(p) => (p, 0u64),
            Err(e) => return Err(e),
        },
        _ => {
            return Ok(None);
        },
    };
    proof {
        assert(path_head(b) matches Some((p, k)) && k == continuation_nb && name@ == nul_cut(p).drop_last());
    }
    let ghost head = name@;
    let mut idx: u64 = 1;
    while idx <= continuation_nb
        invariant
            1 <= idx <= continuation_nb + 1,
            device.contents() == c,
            old(device).contents() == c,
            index_ready(*super_block),
            entries_checkable(*super_block, c),
            full_path_indexes_ok(*super_block, c, n),
            entry_readable(*super_block, c, n),
            b == entry_bytes_in(*super_block, c, n),
            path_head(b) matches Some((_, k)) && k == continuation_nb,
            n == entry_number,
            name@ == head + continuation_names(*super_block, c, n, idx - 1),
            forall|j: int| 1 <= j < idx ==> #[trigger] continuation_valid(*super_block, c, n + j),
        decreases continuation_nb + 1 - idx,
    {
        let entry = match EntryTypeWithEntry::parse(device, super_block, entry_number + idx) {
            Ok(e) => e,
            Err(e) => {
                proof {
                    if !(e matches Error::IO(_)) {
                        assert(!continuation_valid(*super_block, c, n + idx));
                    }
                }
                return Err(e);
            },
        };
        let ghost bj = entry_bytes_in(*super_block, c, n + idx);
        let cont = match entry {
            EntryTypeWithEntry::Continuation(cont) => cont,
            _ => {
                proof {
                    assert(!continuation_valid(*super_block, c, n + idx));
                }
                return Err(
                    Error::Fs(
                        FsError::Implementation(
                            SfsError::WrongEntryType {
                                expected: EntryType::Continuation(0x20),
                                given: entry.variant(),
                            },
                        ),
                    ),
                );
            },
        };
        let part = match cont.parse_entry_name() {
            Ok(p) => p,
            Err(e) => return Err(e),
        };
        name.join(&part);
        proof {
            assert(continuation_valid(*super_block, c, n + idx));
        }
        idx = idx + 1;
    }
    Ok(Some(name))
}

/// Number of entries of the Index Area.
pub open spec fn entry_count(sb: SuperBlock) -> int {
    (sb.index_size / 64) as int
}

/// Number of entries of the Index Area.
pub fn entry_total(super_block: &SuperBlock) -> (res: u64)
    requires
        index_ready(*super_block),
    ensures
        res == entry_count(*super_block),
{
    let starting_addr = super_block.index_area_starting_addr();
    let ending_byte = super_block.filesystem_size();
    (ending_byte - starting_addr.index()) / 64
}

/// Whether `i` is the index of an entry of the Index Area.
pub open spec fn is_entry_index(sb: SuperBlock, i: int) -> bool {
    1 <= i <= entry_count(sb)
}

/// Whether the full path of every entry can be read without overflow.
pub open spec fn paths_indexable(sb: SuperBlock, c: Seq<u8>) -> bool {
    forall|i: int| #[trigger] is_entry_index(sb, i) ==> full_path_indexes_ok(sb, c, i)
}

/// Whether the 64 bytes of an entry slot can be checked: for an unusable entry whose region is invalid, the length
/// of the region in bytes can be computed.
fn slot_checkable(super_block: &SuperBlock, bytes: &[u8; 64]) -> (res: bool)
    requires
        super_block.has_small_blocks(),
    ensures
        res == entry_bytes_checkable(*super_block, bytes@),
{
    let t = bytes[0];
    if !matches!(EntryType::from_byte(t), EntryType::Unusable) {
        return true;
    }
    let start = read_u64_at(bytes, 10);
    let end = read_u64_at(bytes, 18);
    proof {
        assert(unusable_checkable(*super_block, bytes@[0], start, end) == entry_bytes_checkable(
            *super_block,
            bytes@,
        ));
    }
    if start <= end && super_block.is_block_in_data_area(start) && super_block.is_block_in_data_area(end) {
        assert(unusable_region_valid(*super_block, start, end));
        return true;
    }
    if end == u64::MAX || start > end + 1 {
        return false;
    }
    let blocks: u64 = end + 1 - start;
    let bpb: u64 = super_block.bytes_per_block() as u64;
    blocks.checked_mul(bpb).is_some()
}

/// The number of continuation entries announced by an entry that holds a path, `None` for one that holds
/// none.
fn continuation_count(bytes: &[u8; 64]) -> (res: Option<u8>)
    ensures
        path_head(bytes@) is None <==> res is None,
        res matches Some(k) ==> (path_head(bytes@) matches Some((_, n)) && n == k),
{
    match EntryType::from_byte(bytes[0]) {
        EntryType::Directory | EntryType::DeletedDirectory | EntryType::File | EntryType::DeletedFile => Some(
            bytes[1],
        ),
        EntryType::Continuation(_) => Some(0),
        _ => None,
    }
}

/// Checks, by reading every entry slot of the volume that the device holds, whether the entries can be checked
/// ([`entries_checkable`]) and the full path of every entry of the Index Area can be indexed
/// ([`paths_indexable`]): what the scans of the filesystem ask of a device. A failed read gives [`Error::IO`].
pub fn index_checkable<D: Device>(device: &mut D, super_block: &SuperBlock) -> (res: Result<bool, Error<SfsError>>)
    requires
        index_ready(*super_block),
    ensures
        final(device).contents() == old(device).contents(),
        res is Ok || res matches Err(Error::IO(_)),
        res matches Ok(b) ==> b == (entries_checkable(*super_block, old(device).contents()) && paths_indexable(
            *super_block,
            old(device).contents(),
        )),
{
    let ghost c = device.contents();
    let ghost sb = *super_block;
    let size = device.size().0;
    let volume = super_block.filesystem_size();
    let count = entry_total(super_block);
    let last = volume / 64;
    proof {
        assert(count <= last) by {
            vstd::arithmetic::div_mod::lemma_div_is_ordered(sb.index_size as int, volume as int, 64);
        }
    }
    let mut i: u64 = 0;
    while i <= last
        invariant
            index_ready(sb),
            *super_block == sb,
            device.contents() == c,
            old(device).contents() == c,
            size == c.len(),
            volume == volume_bytes(sb),
            count == entry_count(sb),
            count <= last,
            last == volume / 64,
            i <= last + 1,
            forall|j: int|
                0 <= j < i ==> (entry_index_ok(sb, j) && entry_readable(sb, c, j) ==> entry_bytes_checkable(
                    sb,
                    #[trigger] entry_bytes_in(sb, c, j),
                )),
            forall|j: int| 0 <= j < i ==> (#[trigger] is_entry_index(sb, j) ==> full_path_indexes_ok(sb, c, j)),
        decreases last + 1 - i,
    {
        let back: u64 = 64 * i;
        let addr: u64 = volume - back;
        if addr <= u64::MAX - 64 && addr + 64 <= size {
            let start = Address::new(addr);
            let end = Address::new(addr + 64);
            let slice = match device.slice(start..end) {
                Ok(s) => s,
                Err(e) => return Err(Error::IO(e)),
            };
            let bytes = slice.as_bytes();
            let mut arr = [0u8; 64];
            let mut k: usize = 0;
            while k < 64
                invariant
                    bytes@.len() == 64,
                    k <= 64,
                    forall|m: int| 0 <= m < k ==> arr@[m] == bytes@[m],
                decreases 64 - k,
            {
                arr[k] = bytes[k];
                k = k + 1;
            }
            assert(arr@ =~= bytes@);
            assert(entry_bytes_in(sb, c, i as int) == arr@);
            assert(entry_index_ok(sb, i as int) && entry_readable(sb, c, i as int));
            if !slot_checkable(super_block, &arr) {
                assert(!entries_checkable(sb, c));
                return Ok(false);
            }
            if 1 <= i && i <= count {
                match continuation_count(&arr) {
                    Some(k) => {
                        if i + (k as u64) > last {
                            assert(is_entry_index(sb, i as int));
                            assert(64 * (i + k) > volume);
                            assert(!paths_indexable(sb, c));
                            return Ok(false);
                        }
                        assert(64 * (i + k) <= volume);
                    },
                    None => {},
                }
                assert(full_path_indexes_ok(sb, c, i as int));
            }
        } else {
            assert(!(entry_index_ok(sb, i as int) && entry_readable(sb, c, i as int)));
            assert(is_entry_index(sb, i as int) ==> full_path_indexes_ok(sb, c, i as int));
        }
        i = i + 1;
    }
    proof {
        assert forall|j: int|
            entry_index_ok(sb, j) && entry_readable(sb, c, j) implies entry_bytes_checkable(
            sb,
            #[trigger] entry_bytes_in(sb, c, j),
        ) by {
            assert(0 <= j < i);
        }
        assert forall|j: int| #[trigger] is_entry_index(sb, j) implies full_path_indexes_ok(sb, c, j) by {
            assert(0 <= j < i);
        }
    }
    Ok(true)
}

/// Whether index `i` is among those of the found entries `v`.
pub open spec fn listed(v: Seq<(EntryTypeWithEntry, u64)>, i: int) -> bool {
    exists|k: int| 0 <= k < v.len() && v[k].1 == i
}

/// Whether entry `i` parses into `e`.
pub open spec fn entry_parses_to(sb: SuperBlock, c: Seq<u8>, i: int, e: EntryTypeWithEntry) -> bool {
    index_entry_valid(sb, c, i) && e.variant_spec() == entry_type_of(entry_bytes_in(sb, c, i)[0]) && entry_matches_bytes(
        e,
        entry_bytes_in(sb, c, i),
    )
}

/// Whether each entry before entry `i` parses, and `predicate` (given the entry and its index) can answer
/// `false` on it.
pub open spec fn parsed_until<F: Fn(EntryTypeWithEntry, u64) -> Result<bool, Error<SfsError>>>(
    sb: SuperBlock,
    c: Seq<u8>,
    predicate: F,
    i: int,
) -> bool {
    forall|k: int|
        #[trigger] is_entry_index(sb, k) && k < i ==> exists|f: EntryTypeWithEntry|
            #[trigger] entry_parses_to(sb, c, k, f) && call_ensures(predicate, (f, k as u64), Ok(false))
}

/// Whether `err` is what parsing the entries reports at entry `i`: the error of its ill-formed bytes, or an
/// error `predicate` can answer on it.
pub open spec fn parse_error_at<F: Fn(EntryTypeWithEntry, u64) -> Result<bool, Error<SfsError>>>(
    sb: SuperBlock,
    c: Seq<u8>,
    predicate: F,
    i: int,
    err: Error<SfsError>,
) -> bool {
    ||| entry_readable(sb, c, i) && !entry_bytes_valid(sb, entry_bytes_in(sb, c, i)) && entry_bytes_error(
        sb,
        entry_bytes_in(sb, c, i),
        err,
    )
    ||| exists|f: EntryTypeWithEntry| entry_parses_to(sb, c, i, f) && #[trigger] call_ensures(predicate, (f, i as u64), Err(err))
}

/// Returns the entries of the Index Area, in order, up to the first one for which `predicate` (given the
/// entry and its index) answers `true`, that one included; all of them when none does.
///
/// Fails with the error of an ill-formed entry, of the predicate, or of the device.
pub fn parse_entries_until<D: Device, F: Fn(EntryTypeWithEntry, u64) -> Result<bool, Error<SfsError>>>(
    device: &mut D,
    super_block: &SuperBlock,
    predicate: F,
) -> (res: Result<Vec<EntryTypeWithEntry>, Error<SfsError>>)
    requires
        index_ready(*super_block),
        entries_checkable(*super_block, old(device).contents()),
        forall|e: EntryTypeWithEntry, i: u64| call_requires(predicate, (e, i)),
    ensures
        final(device).contents() == old(device).contents(),
        res matches Ok(v) ==> {
            let c = old(device).contents();
            &&& v@.len() <= entry_count(*super_block)
            &&& forall|k: int| 0 <= k < v@.len() ==> #[trigger] entry_parses_to(*super_block, c, k + 1, v@[k])
            &&& forall|k: int| 0 <= k < v@.len() - 1 ==> call_ensures(predicate, (v@[k], (k + 1) as u64), Ok(false))
            &&& v@.len() < entry_count(*super_block) ==> v@.len() > 0 && call_ensures(
                predicate,
                (v@.last(), v@.len() as u64),
                Ok(true),
            )
        },
        res matches Err(err) ==> !(err matches Error::IO(_)) ==> exists|i: int|
            #[trigger] is_entry_index(*super_block, i) && parsed_until(*super_block, old(device).contents(), predicate, i)
                && parse_error_at(*super_block, old(device).contents(), predicate, i, err),
{
    let ghost c = device.contents();
    let nb_entries = entry_total(super_block);
    let mut entries: Vec<EntryTypeWithEntry> = Vec::new();
    let mut idx: u64 = 1;
    while idx <= nb_entries
        invariant
            1 <= idx <= nb_entries + 1,
            nb_entries == entry_count(*super_block),
            device.contents() == c,
            old(device).contents() == c,
            index_ready(*super_block),
            entries_checkable(*super_block, c),
            forall|e: EntryTypeWithEntry, i: u64| call_requires(predicate, (e, i)),
            entries@.len() == idx - 1,
            forall|k: int| 0 <= k < entries@.len() ==> #[trigger] entry_parses_to(*super_block, c, k + 1, entries@[k]),
            forall|k: int| 0 <= k < entries@.len() ==> call_ensures(predicate, (entries@[k], (k + 1) as u64), Ok(false)),
        decreases nb_entries + 1 - idx,
    {
        proof {
            assert(64 * idx <= super_block.index_size) by (nonlinear_arith)
                requires
                    idx <= nb_entries,
                    nb_entries == super_block.index_size / 64,
            ;
        }
        proof {
            assert(is_entry_index(*super_block, idx as int));
            assert forall|k: int| #[trigger] is_entry_index(*super_block, k) && k < idx implies exists|f: EntryTypeWithEntry|
                #[trigger] entry_parses_to(*super_block, c, k, f) && call_ensures(predicate, (f, k as u64), Ok(false)) by {
                assert(entry_parses_to(*super_block, c, (k - 1) + 1, entries@[k - 1]));
            }
        }
        let entry = match EntryTypeWithEntry::parse(device, super_block, idx) {
            Ok(e) => e,
            Err(e) => {
                proof {
                    if !(e matches Error::IO(_)) {
                        assert(parse_error_at(*super_block, c, predicate, idx as int, e));
                    }
                }
                return Err(e);
            },
        };
        entries.push(entry);
        let stop = match predicate(entry, idx) {
            Ok(b) => b,
            Err(e) => {
                proof {
                    assert(((idx as int) as u64) == idx);
                    assert(entry_parses_to(*super_block, c, idx as int, entry));
                    assert(parse_error_at(*super_block, c, predicate, idx as int, e));
                }
                return Err(e);
            },
        };
        if stop {
            return Ok(entries);
        }
        idx = idx + 1;
    }
    Ok(entries)
}

/// Whether `predicate`, given entry `e`, its index `i` and a device holding `c`, can answer `r`.
pub open spec fn answers<D: Device, F: Fn(EntryTypeWithEntry, u64, &mut D) -> Result<bool, Error<SfsError>>>(
    predicate: F,
    e: EntryTypeWithEntry,
    i: u64,
    c: Seq<u8>,
    r: Result<bool, Error<SfsError>>,
) -> bool {
    exists|x: &mut D| #[trigger] x.contents() == c && call_ensures(predicate, (e, i, x), r)
}

/// Whether each entry before entry `i` parses, and `predicate` can answer `false` on it.
pub open spec fn scanned_until<D: Device, F: Fn(EntryTypeWithEntry, u64, &mut D) -> Result<bool, Error<SfsError>>>(
    sb: SuperBlock,
    c: Seq<u8>,
    predicate: F,
    i: int,
) -> bool {
    forall|k: int|
        #[trigger] is_entry_index(sb, k) && k < i ==> exists|f: EntryTypeWithEntry|
            #[trigger] entry_parses_to(sb, c, k, f) && answers(predicate, f, k as u64, c, Ok(false))
}

/// Whether each entry before entry `i` parses, and `predicate` can answer it without error.
pub open spec fn answered_until<D: Device, F: Fn(EntryTypeWithEntry, u64, &mut D) -> Result<bool, Error<SfsError>>>(
    sb: SuperBlock,
    c: Seq<u8>,
    predicate: F,
    i: int,
) -> bool {
    forall|k: int|
        #[trigger] is_entry_index(sb, k) && k < i ==> exists|f: EntryTypeWithEntry, b: bool|
            entry_parses_to(sb, c, k, f) && #[trigger] answers(predicate, f, k as u64, c, Ok(b))
}

/// Whether `err` is what a scan of the entries reports at entry `i`: the error of its ill-formed bytes, or an
/// error `predicate` can answer on it.
pub open spec fn scan_error_at<D: Device, F: Fn(EntryTypeWithEntry, u64, &mut D) -> Result<bool, Error<SfsError>>>(
    sb: SuperBlock,
    c: Seq<u8>,
    predicate: F,
    i: int,
    err: Error<SfsError>,
) -> bool {
    ||| entry_readable(sb, c, i) && !entry_bytes_valid(sb, entry_bytes_in(sb, c, i)) && entry_bytes_error(
        sb,
        entry_bytes_in(sb, c, i),
        err,
    )
    ||| exists|f: EntryTypeWithEntry| entry_parses_to(sb, c, i, f) && #[trigger] answers(predicate, f, i as u64, c, Err(err))
}

/// Returns the first entry of the Index Area for which `predicate` (given the entry, its index and the
/// device) answers `true`, with its index; `None` when there is none.
///
/// Fails with the error of an ill-formed entry, of the predicate, or of the device.
pub fn find_entry<D: Device, F: Fn(EntryTypeWithEntry, u64, &mut D) -> Result<bool, Error<SfsError>>>(
    device: &mut D,
    super_block: &SuperBlock,
    predicate: F,
) -> (res: Result<Option<(EntryTypeWithEntry, u64)>, Error<SfsError>>)
    requires
        index_ready(*super_block),
        entries_checkable(*super_block, old(device).contents()),
        forall|e: EntryTypeWithEntry, i: u64, x: &mut D|
            x.contents() == old(device).contents() && is_entry_index(*super_block, i as int) && entry_parses_to(
                *super_block,
                old(device).contents(),
                i as int,
                e,
            ) ==> #[trigger] call_requires(predicate, (e, i, x)),
        forall|e: EntryTypeWithEntry, i: u64, x: &mut D, r: Result<bool, Error<SfsError>>|
            #[trigger] call_ensures(predicate, (e, i, x), r) ==> final(x).contents() == x.contents(),
    ensures
        final(device).contents() == old(device).contents(),
        res matches Ok(Some((e, j))) ==> {
            let c = old(device).contents();
            &&& is_entry_index(*super_block, j as int)
            &&& entry_parses_to(*super_block, c, j as int, e)
            &&& answers(predicate, e, j, c, Ok(true))
            &&& forall|i: int|
                #[trigger] is_entry_index(*super_block, i) && i < j ==> exists|f: EntryTypeWithEntry|
                    #[trigger] entry_parses_to(*super_block, c, i, f) && answers(predicate, f, i as u64, c, Ok(false))
        },
        res matches Err(err) ==> !(err matches Error::IO(_)) ==> exists|i: int|
            #[trigger] is_entry_index(*super_block, i) && scanned_until(*super_block, old(device).contents(), predicate, i)
                && scan_error_at(*super_block, old(device).contents(), predicate, i, err),
        res matches Ok(None) ==> forall|i: int|
            #[trigger] is_entry_index(*super_block, i) ==> exists|f: EntryTypeWithEntry|
                #[trigger] entry_parses_to(*super_block, old(device).contents(), i, f) && answers(
                    predicate,
                    f,
                    i as u64,
                    old(device).contents(),
                    Ok(false),
                ),
{
    let ghost c = device.contents();
    let nb_entries = entry_total(super_block);
    let mut idx: u64 = 1;
    while idx <= nb_entries
        invariant
            1 <= idx <= nb_entries + 1,
            nb_entries == entry_count(*super_block),
            device.contents() == c,
            old(device).contents() == c,
            index_ready(*super_block),
            entries_checkable(*super_block, c),
            forall|e: EntryTypeWithEntry, i: u64, x: &mut D|
                x.contents() == c && is_entry_index(*super_block, i as int) && entry_parses_to(*super_block, c, i as int, e)
                    ==> #[trigger] call_requires(predicate, (e, i, x)),
            forall|e: EntryTypeWithEntry, i: u64, x: &mut D, r: Result<bool, Error<SfsError>>|
                #[trigger] call_ensures(predicate, (e, i, x), r) ==> final(x).contents() == x.contents(),
            scanned_until(*super_block, c, predicate, idx as int),
        decreases nb_entries + 1 - idx,
    {
        proof {
            assert(64 * idx <= super_block.index_size) by (nonlinear_arith)
                requires
                    idx <= nb_entries,
                    nb_entries == super_block.index_size / 64,
            ;
            assert(is_entry_index(*super_block, idx as int));
        }
        let entry = match EntryTypeWithEntry::parse(device, super_block, idx) {
            Ok(e) => e,
            Err(e) => {
                proof {
                    if !(e matches Error::IO(_)) {
                        assert(scan_error_at(*super_block, c, predicate, idx as int, e));
                    }
                }
                return Err(e);
            },
        };
        proof {
            assert(entry_parses_to(*super_block, c, idx as int, entry));
        }
        let found = match predicate(entry, idx, device) {
            Ok(b) => b,
            Err(e) => {
                proof {
                    assert(answers(predicate, entry, idx, c, Err(e)));
                    assert(((idx as int) as u64) == idx);
                    assert(entry_parses_to(*super_block, c, idx as int, entry) && answers(
                        predicate,
                        entry,
                        (idx as int) as u64,
                        c,
                        Err(e),
                    ));
                    assert(scan_error_at(*super_block, c, predicate, idx as int, e));
                }
                return Err(e);
            },
        };
        proof {
            assert(answers(predicate, entry, idx, c, Ok(found)));
        }
        if found {
            return Ok(Some((entry, idx)));
        }
        proof {
            assert(entry_parses_to(*super_block, c, idx as int, entry));
        }
        idx = idx + 1;
    }
    Ok(None)
}

/// Returns the entries of the Index Area for which `predicate` (given the entry, its index and the device)
/// answers `true`, with their indexes, in order.
///
/// Fails with the error of an ill-formed entry, of the predicate, or of the device.
pub fn find_all_entries<D: Device, F: Fn(EntryTypeWithEntry, u64, &mut D) -> Result<bool, Error<SfsError>>>(
    device: &mut D,
    super_block: &SuperBlock,
    predicate: F,
) -> (res: Result<Vec<(EntryTypeWithEntry, u64)>, Error<SfsError>>)
    requires
        index_ready(*super_block),
        entries_checkable(*super_block, old(device).contents()),
        forall|e: EntryTypeWithEntry, i: u64, x: &mut D|
            x.contents() == old(device).contents() && is_entry_index(*super_block, i as int) && entry_parses_to(
                *super_block,
                old(device).contents(),
                i as int,
                e,
            ) ==> #[trigger] call_requires(predicate, (e, i, x)),
        forall|e: EntryTypeWithEntry, i: u64, x: &mut D, r: Result<bool, Error<SfsError>>|
            #[trigger] call_ensures(predicate, (e, i, x), r) ==> final(x).contents() == x.contents(),
    ensures
        final(device).contents() == old(device).contents(),
        res matches Err(err) ==> !(err matches Error::IO(_)) ==> exists|i: int|
            #[trigger] is_entry_index(*super_block, i) && answered_until(*super_block, old(device).contents(), predicate, i)
                && scan_error_at(*super_block, old(device).contents(), predicate, i, err),
        res matches Ok(v) ==> {
            let c = old(device).contents();
            &&& forall|k: int|
                0 <= k < v@.len() ==> 1 <= (#[trigger] v@[k]).1 <= entry_count(*super_block) && entry_parses_to(
                    *super_block,
                    c,
                    v@[k].1 as int,
                    v@[k].0,
                ) && answers(predicate, v@[k].0, v@[k].1, c, Ok(true))
            &&& forall|k: int, l: int| 0 <= k < l < v@.len() ==> (#[trigger] v@[k]).1 < (#[trigger] v@[l]).1
            &&& forall|i: int|
                #[trigger] is_entry_index(*super_block, i) && !listed(v@, i)
                    ==> exists|f: EntryTypeWithEntry|
                    #[trigger] entry_parses_to(*super_block, c, i, f) && answers(predicate, f, i as u64, c, Ok(false))
        },
{
    let ghost c = device.contents();
    let nb_entries = entry_total(super_block);
    let mut entries: Vec<(EntryTypeWithEntry, u64)> = Vec::new();
    let mut idx: u64 = 1;
    while idx <= nb_entries
        invariant
            1 <= idx <= nb_entries + 1,
            nb_entries == entry_count(*super_block),
            device.contents() == c,
            old(device).contents() == c,
            index_ready(*super_block),
            entries_checkable(*super_block, c),
            forall|e: EntryTypeWithEntry, i: u64, x: &mut D|
                x.contents() == c && is_entry_index(*super_block, i as int) && entry_parses_to(*super_block, c, i as int, e)
                    ==> #[trigger] call_requires(predicate, (e, i, x)),
            forall|e: EntryTypeWithEntry, i: u64, x: &mut D, r: Result<bool, Error<SfsError>>|
                #[trigger] call_ensures(predicate, (e, i, x), r) ==> final(x).contents() == x.contents(),
            forall|k: int|
                0 <= k < entries@.len() ==> 1 <= (#[trigger] entries@[k]).1 < idx && entry_parses_to(
                    *super_block,
                    c,
                    entries@[k].1 as int,
                    entries@[k].0,
                ) && answers(predicate, entries@[k].0, entries@[k].1, c, Ok(true)),
            forall|k: int, l: int| 0 <= k < l < entries@.len() ==> (#[trigger] entries@[k]).1 < (#[trigger] entries@[l]).1,
            answered_until(*super_block, c, predicate, idx as int),
            forall|i: int|
                #[trigger] is_entry_index(*super_block, i) && i < idx && !listed(entries@, i)
                    ==> exists|f: EntryTypeWithEntry|
                    #[trigger] entry_parses_to(*super_block, c, i, f) && answers(predicate, f, i as u64, c, Ok(false)),
        decreases nb_entries + 1 - idx,
    {
        proof {
            assert(64 * idx <= super_block.index_size) by (nonlinear_arith)
                requires
                    idx <= nb_entries,
                    nb_entries == super_block.index_size / 64,
            ;
            assert(is_entry_index(*super_block, idx as int));
        }
        let entry = match EntryTypeWithEntry::parse(device, super_block, idx) {
            Ok(e) => e,
            Err(e) => {
                proof {
                    if !(e matches Error::IO(_)) {
                        assert(scan_error_at(*super_block, c, predicate, idx as int, e));
                    }
                }
                return Err(e);
            },
        };
        proof {
            assert(entry_parses_to(*super_block, c, idx as int, entry));
        }
        let keep = match predicate(entry, idx, device) {
            Ok(b) => b,
            Err(e) => {
                proof {
                    assert(answers(predicate, entry, idx, c, Err(e)));
                    assert(((idx as int) as u64) == idx);
                    assert(entry_parses_to(*super_block, c, idx as int, entry) && answers(
                        predicate,
                        entry,
                        (idx as int) as u64,
                        c,
                        Err(e),
                    ));
                    assert(scan_error_at(*super_block, c, predicate, idx as int, e));
                }
                return Err(e);
            },
        };
        proof {
            assert(answers(predicate, entry, idx, c, Ok(keep)));
        }
        let ghost before = entries@;
        proof {
            assert forall|k: int| #[trigger] is_entry_index(*super_block, k) && k < idx + 1 implies exists|
                f: EntryTypeWithEntry,
                b: bool,
            | entry_parses_to(*super_block, c, k, f) && #[trigger] answers(predicate, f, k as u64, c, Ok(b)) by {
                if k == idx {
                    assert(entry_parses_to(*super_block, c, k, entry) && answers(predicate, entry, k as u64, c, Ok(keep)));
                }
            }
        }
        if keep {
            entries.push((entry, idx));
            proof {
                assert forall|i: int|
                    #[trigger] is_entry_index(*super_block, i) && i < idx + 1 && !listed(entries@, i)
                        implies exists|f: EntryTypeWithEntry|
                    #[trigger] entry_parses_to(*super_block, c, i, f) && answers(predicate, f, i as u64, c, Ok(false)) by {
                    assert(entries@[before.len() as int].1 == idx);
                    if listed(before, i) {
                        let k = choose|k: int| 0 <= k < before.len() && before[k].1 == i;
                        assert(entries@[k] == before[k]);
                    }
                }
            }
        } else {
            proof {
                assert(entry_parses_to(*super_block, c, idx as int, entry));
            }
        }
        idx = idx + 1;
    }
    assert forall|i: int|
        #[trigger] is_entry_index(*super_block, i) && !listed(entries@, i)
            implies exists|f: EntryTypeWithEntry|
        #[trigger] entry_parses_to(*super_block, c, i, f) && answers(predicate, f, i as u64, c, Ok(false)) by {
        assert(i < idx);
    }
    Ok(entries)
}

} // verus!
