//! Partitions of a block device, as found in its GPT.

use vstd::prelude::*;
use vstd::string::StringExecFns;

use crate::block_protocol::protocol::BlockDevice;

verus! {

/// Size in bytes of a logical block of the partition table.
pub const LBA_SIZE: u64 = 512;

/// A part of a block device, seen as a device of its own: byte `n` of the partition is byte `offset + n` of
/// the device.
pub struct PartitionDevice<D> {
    inner: D,
    offset: u64,
    size: usize,
}

impl<D: BlockDevice> PartitionDevice<D> {
    /// Offset in bytes of the partition on the device.
    pub closed spec fn spec_offset(&self) -> u64 {
        self.offset
    }

    /// Size in bytes of the partition.
    pub closed spec fn spec_size(&self) -> usize {
        self.size
    }

    /// The device the partition is part of.
    pub closed spec fn spec_inner(&self) -> D {
        self.inner
    }

    /// The part of `inner` of `size` bytes from byte `offset` on.
    pub fn new(inner: D, offset: u64, size: usize) -> (res: Self)
        ensures
            res.spec_offset() == offset,
            res.spec_size() == size,
            res.spec_inner() == inner,
    {
        PartitionDevice { inner, offset, size }
    }

    /// Offset in bytes of the partition on the device.
    pub fn offset(&self) -> (res: u64)
        ensures
            res == self.spec_offset(),
    {
        self.offset
    }

    /// Size in bytes of the partition.
    pub fn size(&self) -> (res: usize)
        ensures
            res == self.spec_size(),
    {
        self.size
    }

    /// The device the partition is part of.
    pub fn inner(&self) -> (res: &D)
        ensures
            *res == self.spec_inner(),
    {
        &self.inner
    }

    /// Byte of the device that is byte `start_byte` of the partition.
    pub fn device_offset(&self, start_byte: u64) -> (res: u64)
        requires
            start_byte + self.spec_offset() <= u64::MAX,
        ensures
            res == start_byte + self.spec_offset(),
    {
        start_byte + self.offset
    }

    /// Reads from byte `start_byte` of the partition, that is from byte `start_byte + offset` of the device.
    pub fn read_block(&self, start_byte: u64, buf: &mut [u8]) -> (res: Result<(), D::Error>)
        requires
            start_byte + self.spec_offset() <= u64::MAX,
        ensures
            exists|b: &mut [u8]|
                b@ == old(buf)@ && final(b)@ == final(buf)@ && #[trigger] call_ensures(
                    D::read_block,
                    (&self.spec_inner(), (start_byte + self.spec_offset()) as u64, b),
                    res,
                ),
    {
        let at = self.device_offset(start_byte);
        let res = D::read_block(&self.inner, at, buf);
        proof {
            assert(self.spec_inner() == self.inner && at == (start_byte + self.spec_offset()) as u64);
        }
        res
    }

    /// Writes from byte `start_byte` of the partition, that is from byte `start_byte + offset` of the device.
    pub fn write_block(&self, start_byte: u64, buf: &[u8]) -> (res: Result<(), D::Error>)
        requires
            start_byte + self.spec_offset() <= u64::MAX,
        ensures
            call_ensures(D::write_block, (&self.spec_inner(), (start_byte + self.spec_offset()) as u64, buf), res),
    {
        let at = self.device_offset(start_byte);
        self.inner.write_block(at, buf)
    }
}

/// Whether `size` is a valid size of a partition entry: a power of two of at least 128 bytes.
pub open spec fn valid_entry_size(size: u32) -> bool {
    size >= 128 && size & ((size - 1) as u32) == 0
}

/// Whether a partition entry of this partition type GUID is in use: the unused type is the all-zero GUID.
pub open spec fn guid_in_use(type_guid: Seq<u8>) -> bool {
    exists|i: int| 0 <= i < type_guid.len() && type_guid[i] != 0
}

/// Checks the partition entry size announced by a GPT header.
pub fn entry_size_valid(size: u32) -> (res: bool)
    ensures
        res == valid_entry_size(size),
{
    size >= 128 && size & (size - 1) == 0
}

/// Checks whether a partition entry of the given partition type GUID is in use.
pub fn slot_used(type_guid: [u8; 16]) -> (res: bool)
    ensures
        res == guid_in_use(type_guid@),
{
    let mut i: usize = 0;
    while i < 16
        invariant
            i <= 16,
            type_guid@.len() == 16,
            forall|k: int| 0 <= k < i ==> type_guid@[k] == 0,
        decreases 16 - i,
    {
        if type_guid[i] != 0 {
            return true;
        }
        i = i + 1;
    }
    false
}

/// One slot of the GPT partition entry array, as read.
#[derive(Debug, Clone, Copy)]
pub enum GptSlot {
    /// The entry could not be read.
    Unreadable,
    /// The entry: its partition type GUID, and its first and last logical blocks.
    Entry { type_guid: [u8; 16], starting_lba: u64, ending_lba: u64 },
}

/// What reading the partition table of a device gave.
pub enum GptScan {
    /// No partition table could be read.
    NoTable,
    /// A table: the entry size its header announces and the slots of its entry array, in order (none are read
    /// when the entry size is invalid).
    Table { entry_size: u32, slots: Vec<GptSlot> },
}

/// Why the partitions could not be found.
#[derive(Debug, Clone, Copy, PartialEq, Eq, Structural)]
pub enum ProbeError {
    /// The table's header announces an invalid entry size.
    InvalidEntrySize,
}

/// A partition found: its number in the entry array, offset and size in bytes.
#[derive(Debug, Clone, Copy, PartialEq, Eq, Structural)]
pub struct PartitionPlan {
    /// Position of its entry in the array.
    pub index: usize,
    /// Offset in bytes on the device.
    pub offset: u64,
    /// Size in bytes.
    pub size: usize,
}

/// Whether slot `i` is an entry that is not used, which ends the table.
pub open spec fn ends_table(slots: Seq<GptSlot>, i: int) -> bool {
    slots[i] matches GptSlot::Entry { type_guid, .. } && !guid_in_use(type_guid@)
}

/// Number of slots before the first unused entry.
pub open spec fn table_len(slots: Seq<GptSlot>) -> int
    decreases slots.len(),
{
    if slots.len() == 0 {
        0
    } else if ends_table(slots, 0) {
        0
    } else {
        1 + table_len(slots.drop_first())
    }
}

/// Whether the used entries before the end of the table have sizes and offsets that fit.
pub open spec fn slots_fit(slots: Seq<GptSlot>) -> bool {
    forall|i: int|
        0 <= i < table_len(slots) ==> (#[trigger] slots[i] matches GptSlot::Entry { starting_lba, ending_lba, .. } ==> (
        starting_lba * 512 <= u64::MAX && starting_lba <= ending_lba && (ending_lba - starting_lba) * 512
            <= usize::MAX))
}

/// The partition of a readable entry at position `index`: from its first block, of `ending - starting`
/// blocks.
pub open spec fn partition_of(index: int, starting_lba: u64, ending_lba: u64) -> PartitionPlan {
    PartitionPlan {
        index: index as usize,
        offset: (starting_lba * 512) as u64,
        size: ((ending_lba - starting_lba) * 512) as usize,
    }
}

/// The partitions of the readable entries among `slots`, in order.
pub open spec fn entries_of(slots: Seq<GptSlot>) -> Seq<PartitionPlan>
    decreases slots.len(),
{
    if slots.len() == 0 {
        Seq::empty()
    } else {
        let prev = entries_of(slots.drop_last());
        match slots.last() {
            GptSlot::Entry { starting_lba, ending_lba, .. } => prev.push(
                partition_of(slots.len() - 1, starting_lba, ending_lba),
            ),
            GptSlot::Unreadable => prev,
        }
    }
}

/// The partitions described by the slots before the end of the table, in order.
pub open spec fn planned_partitions(slots: Seq<GptSlot>) -> Seq<PartitionPlan> {
    entries_of(slots.subrange(0, table_len(slots)))
}

/// The character of a decimal digit.
pub open spec fn digit_char(d: nat) -> char {
    (48 + d) as char
}

/// The decimal digits of `n`, without leading zeros.
pub open spec fn decimal(n: nat) -> Seq<char>
    decreases n,
{
    if n < 10 {
        seq![digit_char(n)]
    } else {
        decimal(n / 10).push(digit_char(n % 10))
    }
}

/// The name of partition `index` of the device named `prefix`.
pub open spec fn partition_name_spec(prefix: Seq<char>, index: nat) -> Seq<char> {
    prefix + seq!['p', 'a', 'r', 't'] + decimal(index)
}

/// The one-character string of a decimal digit.
fn digit_str(d: usize) -> (res: &'static str)
    requires
        d < 10,
    ensures
        res@ == seq![digit_char(d as nat)],
{
    proof {
        reveal_strlit("0");
        reveal_strlit("1");
        reveal_strlit("2");
        reveal_strlit("3");
        reveal_strlit("4");
        reveal_strlit("5");
        reveal_strlit("6");
        reveal_strlit("7");
        reveal_strlit("8");
        reveal_strlit("9");
    }
    if d == 0 {
        "0"
    } else if d == 1 {
        "1"
    } else if d == 2 {
        "2"
    } else if d == 3 {
        "3"
    } else if d == 4 {
        "4"
    } else if d == 5 {
        "5"
    } else if d == 6 {
        "6"
    } else if d == 7 {
        "7"
    } else if d == 8 {
        "8"
    } else {
        "9"
    }
}

/// Appends the decimal digits of `n`, without leading zeros, to `out`.
fn push_decimal(out: &mut String, n: usize)
    ensures
        final(out)@ == old(out)@ + decimal(n as nat),
    decreases n,
{
    if n >= 10 {
        push_decimal(out, n / 10);
    }
    out.append(digit_str(n % 10));
    proof {
        if n >= 10 {
            assert(decimal(n as nat) == decimal((n / 10) as nat).push(digit_char((n % 10) as nat)));
        }
        assert(old(out)@ + decimal(n as nat) =~= final(out)@) by {
            if n >= 10 {
                assert(final(out)@ =~= old(out)@ + decimal((n / 10) as nat) + seq![digit_char((n % 10) as nat)]);
            }
        }
    }
}

/// The name of partition `index` of the device named `prefix`: the prefix, `part`, then the index in decimal.
pub fn partition_name(prefix: &str, index: usize) -> (res: String)
    ensures
        res@ == partition_name_spec(prefix@, index as nat),
{
    let mut name = String::from_str(prefix);
    name.append("part");
    push_decimal(&mut name, index);
    proof {
        reveal_strlit("part");
    }
    name
}

/// A partition with its name.
#[derive(Debug, Clone)]
pub struct NamedPartition {
    /// `prefix`, `part`, then the position of its entry.
    pub name: String,
    /// Offset in bytes on the device.
    pub offset: u64,
    /// Size in bytes.
    pub size: usize,
}

/// The partitions of a device named `prefix`, named after it (see [`probe_partitions`]).
pub fn probe_named_partitions(prefix: &str, scan: &GptScan, device_size: usize) -> (res: Result<
    Vec<NamedPartition>,
    ProbeError,
>)
    requires
        scan matches GptScan::Table { slots, .. } ==> slots_fit(slots@),
    ensures
        probe_partitions_spec(scan, device_size) is None ==> res == Err::<Vec<NamedPartition>, ProbeError>(
            ProbeError::InvalidEntrySize,
        ),
        probe_partitions_spec(scan, device_size) is Some ==> (res matches Ok(v) && probe_partitions_spec(scan, device_size) matches Some(
            plans,
        ) && v@.len() == plans.len() && forall|i: int|
            0 <= i < plans.len() ==> {
                &&& (#[trigger] v@[i]).name@ == partition_name_spec(prefix@, plans[i].index as nat)
                &&& v@[i].offset == plans[i].offset
                &&& v@[i].size == plans[i].size
            }),
{
    let plans = match probe_partitions(scan, device_size) {
        Ok(p) => p,
        Err(e) => return Err(e),
    };
    let mut out: Vec<NamedPartition> = Vec::new();
    let mut i: usize = 0;
    while i < plans.len()
        invariant
            i <= plans@.len(),
            out@.len() == i,
            forall|k: int|
                0 <= k < i ==> {
                    &&& (#[trigger] out@[k]).name@ == partition_name_spec(prefix@, plans@[k].index as nat)
                    &&& out@[k].offset == plans@[k].offset
                    &&& out@[k].size == plans@[k].size
                },
        decreases plans@.len() - i,
    {
        let p = plans[i];
        out.push(NamedPartition { name: partition_name(prefix, p.index), offset: p.offset, size: p.size });
        i = i + 1;
    }
    Ok(out)
}

/// The partitions found from what reading the table gave, `None` when its entry size is invalid.
pub open spec fn probe_partitions_spec(scan: &GptScan, device_size: usize) -> Option<Seq<PartitionPlan>> {
    match scan {
        GptScan::NoTable => Some(seq![PartitionPlan { index: 0, offset: 0, size: device_size }]),
        GptScan::Table { entry_size, slots } => if valid_entry_size(*entry_size) {
            Some(planned_partitions(slots@))
        } else {
            None
        },
    }
}

/// The partitions of a device of `device_size` bytes from what reading its table gave: the partitions of
/// the table; the whole device as partition 0 when no table could be read; an error when the table's entry
/// size is invalid.
pub fn probe_partitions(scan: &GptScan, device_size: usize) -> (res: Result<Vec<PartitionPlan>, ProbeError>)
    requires
        scan matches GptScan::Table { slots, .. } ==> slots_fit(slots@),
    ensures
        scan is NoTable ==> (res matches Ok(v) && v@ == seq![PartitionPlan { index: 0, offset: 0, size: device_size }]),
        scan matches GptScan::Table { entry_size, .. } ==> (!valid_entry_size(*entry_size) ==> res == Err::<
            Vec<PartitionPlan>,
            ProbeError,
        >(ProbeError::InvalidEntrySize)),
        scan matches GptScan::Table { entry_size, slots } ==> (valid_entry_size(*entry_size) ==> (res matches Ok(
            v,
        ) && v@ == planned_partitions(slots@))),
{
    match scan {
        GptScan::NoTable => {
            let mut v: Vec<PartitionPlan> = Vec::new();
            v.push(PartitionPlan { index: 0, offset: 0, size: device_size });
            assert(v@ =~= seq![PartitionPlan { index: 0, offset: 0, size: device_size }]);
            Ok(v)
        },
        GptScan::Table { entry_size, slots } => {
            if !entry_size_valid(*entry_size) {
                return Err(ProbeError::InvalidEntrySize);
            }
            Ok(plan_table(slots.as_slice()))
        },
    }
}

/// Slot `i` ends the table when it is the first unused entry, and the table holds every slot before it.
proof fn lemma_table_len_bounds(slots: Seq<GptSlot>)
    ensures
        0 <= table_len(slots) <= slots.len(),
        table_len(slots) < slots.len() ==> ends_table(slots, table_len(slots)),
        forall|k: int| 0 <= k < table_len(slots) ==> !ends_table(slots, k),
    decreases slots.len(),
{
    if slots.len() > 0 && !ends_table(slots, 0) {
        let rest = slots.drop_first();
        lemma_table_len_bounds(rest);
        assert forall|k: int| 0 <= k < table_len(slots) implies !ends_table(slots, k) by {
            if k > 0 {
                assert(rest[k - 1] == slots[k]);
                assert(!ends_table(rest, k - 1));
            }
        }
        if table_len(slots) < slots.len() {
            assert(slots.drop_first()[table_len(slots) - 1] == slots[table_len(slots)]);
        }
    }
}

/// The partitions of the table whose slots are `slots`.
fn plan_table(slots: &[GptSlot]) -> (res: Vec<PartitionPlan>)
    requires
        slots_fit(slots@),
    ensures
        res@ == planned_partitions(slots@),
{
    let mut out: Vec<PartitionPlan> = Vec::new();
    let mut i: usize = 0;
    proof {
        lemma_table_len_bounds(slots@);
        assert(slots@.subrange(0, 0).len() == 0);
    }
    while i < slots.len()
        invariant
            i <= slots@.len(),
            i <= table_len(slots@),
            slots_fit(slots@),
            0 <= table_len(slots@) <= slots@.len(),
            table_len(slots@) < slots@.len() ==> ends_table(slots@, table_len(slots@)),
            forall|k: int| 0 <= k < table_len(slots@) ==> !ends_table(slots@, k),
            out@ == entries_of(slots@.subrange(0, i as int)),
        decreases slots@.len() - i,
    {
        let slot = slots[i];
        let ghost next = slots@.subrange(0, i + 1);
        proof {
            assert(next.drop_last() =~= slots@.subrange(0, i as int));
            assert(next.last() == slot);
            assert(slots@[i as int] == slot);
        }
        match slot {
            GptSlot::Entry { type_guid, starting_lba, ending_lba } => {
                if !slot_used(type_guid) {
                    proof {
                        assert(ends_table(slots@, i as int));
                        assert(table_len(slots@) == i);
                    }
                    return out;
                }
                proof {
                    assert(!ends_table(slots@, i as int));
                    assert(i < table_len(slots@));
                }
                out.push(
                    PartitionPlan {
                        index: i,
                        offset: starting_lba * 512,
                        size: ((ending_lba - starting_lba) as usize) * 512,
                    },
                );
            },
            GptSlot::Unreadable => {
                proof {
                    assert(!ends_table(slots@, i as int));
                    assert(i < table_len(slots@));
                }
            },
        }
        i = i + 1;
    }
    proof {
        assert(slots@.subrange(0, table_len(slots@)) =~= slots@.subrange(0, i as int));
    }
    out
}

} // verus!
