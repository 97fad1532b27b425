//! PRP (Physical Region Page) entries describing the memory of an I/O transfer.

use vstd::prelude::*;

verus! {

/// Size in bytes of a memory page.
pub const PAGE_SIZE: usize = 4096;

/// Errors of the NVMe driver logic.
#[derive(Debug, Clone, Copy, PartialEq, Eq, Structural)]
pub enum NvmeError {
    /// An argument is invalid.
    InvalidArgument,
    /// Memory could not be allocated.
    OutOfMemory,
    /// The controller reported a failed command.
    Io,
    /// The controller did not answer in time.
    Timeout,
}

/// Kind of PRP description of a transfer.
#[derive(Debug, Clone, Copy, PartialEq, Eq, Structural)]
pub enum PrpMode {
    /// The data lies in a single page: only PRP1 is used.
    Single,
    /// The data spans two pages: PRP1 and PRP2 point at them.
    Double,
    /// The data spans more pages: PRP2 points at a PRP list.
    List,
}

/// Minimum of two integers.
pub open spec fn min(a: int, b: int) -> int {
    if a <= b { a } else { b }
}

/// Bytes of a transfer starting at `base` covered by its first PRP entry: up to the end of the first page.
pub open spec fn first_chunk(base: u64, length: usize) -> int {
    min(4096 - base % 4096, length as int)
}

/// Number of pages after the first one covered by a transfer.
pub open spec fn extra_pages(base: u64, length: usize) -> int {
    (length - first_chunk(base, length) + 4095) / 4096
}

/// The PRP entries after the first one of a contiguous transfer: consecutive pages from the end of the first
/// chunk on.
pub open spec fn page_entries(base: u64, length: usize) -> Seq<u64> {
    Seq::new(extra_pages(base, length) as nat, |k: int| (base + first_chunk(base, length) + k * 4096) as u64)
}

/// Whether the addresses a contiguous transfer walks through fit on 64 bits.
pub open spec fn transfer_fits(base: u64, length: usize) -> bool {
    base + first_chunk(base, length) + extra_pages(base, length) * 4096 <= u64::MAX
}

/// The PRP entries of a segment, from byte `off` on: the address of each chunk, a chunk ending at a page end
/// or at the end of the segment.
pub open spec fn segment_entries(phys: u64, off: int, len: int) -> Seq<u64>
    decreases len - off,
{
    if off >= len || off < 0 {
        Seq::empty()
    } else {
        seq![(phys + off) as u64] + segment_entries(phys, off + min(4096 - (phys + off) % 4096, len - off), len)
    }
}

/// The PRP entries of a list of segments, in order.
pub open spec fn segments_entries(segments: Seq<(u64, usize)>) -> Seq<u64>
    decreases segments.len(),
{
    if segments.len() == 0 {
        Seq::empty()
    } else {
        segments_entries(segments.drop_last()) + segment_entries(
            segments.last().0,
            0,
            segments.last().1 as int,
        )
    }
}

/// PRP description of a transfer: PRP1, PRP2 and, when needed, the entries of the PRP list that PRP2 points at.
#[derive(Debug, Clone)]
pub struct PrpBuilder {
    /// Entries of the PRP list, if one is needed.
    prp_list: Option<Vec<u64>>,
    /// PRP1 value.
    prp1: u64,
    /// PRP2 value (the address of the PRP list once it is placed, in list mode).
    prp2: u64,
}

impl PrpBuilder {
    /// Entries of the PRP list, if any.
    pub closed spec fn list(&self) -> Option<Seq<u64>> {
        match &self.prp_list {
            Some(v) => Some(v@),
            None => None,
        }
    }

    /// PRP1 value.
    pub closed spec fn prp1_spec(&self) -> u64 {
        self.prp1
    }

    /// PRP2 value.
    pub closed spec fn prp2_spec(&self) -> u64 {
        self.prp2
    }

    /// Describes a contiguous transfer of `length` bytes at physical address `base_phys`.
    ///
    /// An empty transfer has both PRPs zero. PRP1 is the start of the data; when the data spans two pages PRP2 is
    /// the start of the second one; when it spans more, the PRP list holds the start of every page after the
    /// first, and PRP2 is zero until the list is placed with [`place_list`](PrpBuilder::place_list).
    pub fn from_phys(base_phys: u64, length: usize) -> (res: Self)
        requires
            transfer_fits(base_phys, length),
        ensures
            length == 0 ==> res.prp1_spec() == 0 && res.prp2_spec() == 0 && res.list() is None,
            length > 0 ==> res.prp1_spec() == base_phys,
            length > 0 && extra_pages(base_phys, length) == 0 ==> res.prp2_spec() == 0 && res.list() is None,
            length > 0 && extra_pages(base_phys, length) == 1 ==> res.prp2_spec() == base_phys + first_chunk(
                base_phys,
                length,
            ) && res.list() is None,
            length > 0 && extra_pages(base_phys, length) > 1 ==> res.prp2_spec() == 0 && res.list() == Some(
                page_entries(base_phys, length),
            ),
    {
        if length == 0 {
            return PrpBuilder { prp_list: None, prp1: 0, prp2: 0 };
        }
        let page_offset: u64 = base_phys % 4096;
        let room: u64 = 4096 - page_offset;
        let first: usize = if (length as u64) < room { length } else { room as usize };
        let remaining: usize = length - first;
        if remaining == 0 {
            PrpBuilder { prp_list: None, prp1: base_phys, prp2: 0 }
        } else if remaining <= PAGE_SIZE {
            PrpBuilder { prp_list: None, prp1: base_phys, prp2: base_phys + first as u64 }
        } else {
            Self::build_prp_list(base_phys, first, base_phys, length)
        }
    }

    /// Builds the PRP list description of a transfer spanning more than two pages.
    fn build_prp_list(prp1: u64, first_prp_len: usize, base_phys: u64, total_length: usize) -> (res: Self)
        requires
            total_length > 0,
            first_prp_len == first_chunk(base_phys, total_length),
            total_length - first_prp_len > 4096,
            transfer_fits(base_phys, total_length),
        ensures
            res.prp1_spec() == prp1,
            res.prp2_spec() == 0,
            res.list() == Some(page_entries(base_phys, total_length)),
    {
        let remaining = total_length - first_prp_len;
        let num_prps: usize = remaining / PAGE_SIZE + if remaining % PAGE_SIZE == 0 { 0 } else { 1 };
        assert(num_prps == extra_pages(base_phys, total_length));
        let mut list: Vec<u64> = Vec::new();
        let mut current_phys: u64 = base_phys + first_prp_len as u64;
        let mut i: usize = 0;
        while i < num_prps
            invariant
                num_prps == extra_pages(base_phys, total_length),
                first_prp_len == first_chunk(base_phys, total_length),
                transfer_fits(base_phys, total_length),
                i <= num_prps,
                list@.len() == i,
                current_phys == base_phys + first_prp_len + i * 4096,
                forall|k: int| 0 <= k < i ==> list@[k] == page_entries(base_phys, total_length)[k],
            decreases num_prps - i,
        {
            list.push(current_phys);
            current_phys = current_phys + 4096;
            i = i + 1;
        }
        assert(list@ =~= page_entries(base_phys, total_length));
        PrpBuilder { prp_list: Some(list), prp1, prp2: 0 }
    }

    /// Records where the PRP list was placed: PRP2 becomes its physical address.
    pub fn place_list(&mut self, list_phys: u64)
        requires
            old(self).list() is Some,
        ensures
            final(self).list() == old(self).list(),
            final(self).prp1_spec() == old(self).prp1_spec(),
            final(self).prp2_spec() == list_phys,
    {
        self.prp2 = list_phys;
    }

    /// Describes a transfer over several physical segments (address, length): one PRP entry per chunk of a
    /// segment lying in one page.
    ///
    /// No segment gives both PRPs zero; segments that give no entry at all are invalid
    /// ([`NvmeError::InvalidArgument`]). One entry goes in PRP1, a second one in PRP2, and when there are more
    /// all the entries after the first go in the PRP list.
    pub fn from_segments(segments: &[(u64, usize)]) -> (res: Result<Self, NvmeError>)
        requires
            forall|i: int| 0 <= i < segments@.len() ==> segments@[i].0 + segments@[i].1 <= u64::MAX,
        ensures
            segments@.len() == 0 ==> (res matches Ok(b) && b.prp1_spec() == 0 && b.prp2_spec() == 0 && b.list() is None),
            segments@.len() > 0 ==> ({
                let entries = segments_entries(segments@);
                &&& entries.len() == 0 ==> res == Err::<Self, NvmeError>(NvmeError::InvalidArgument)
                &&& entries.len() == 1 ==> (res matches Ok(b) && b.prp1_spec() == entries[0] && b.prp2_spec() == 0
                    && b.list() is None)
                &&& entries.len() == 2 ==> (res matches Ok(b) && b.prp1_spec() == entries[0] && b.prp2_spec()
                    == entries[1] && b.list() is None)
                &&& entries.len() > 2 ==> (res matches Ok(b) && b.prp1_spec() == entries[0] && b.prp2_spec() == 0
                    && b.list() == Some(entries.drop_first()))
            }),
    {
        if segments.len() == 0 {
            return Ok(PrpBuilder { prp_list: None, prp1: 0, prp2: 0 });
        }
        let mut entries: Vec<u64> = Vec::new();
        let mut i: usize = 0;
        while i < segments.len()
            invariant
                i <= segments@.len(),
                forall|j: int| 0 <= j < segments@.len() ==> segments@[j].0 + segments@[j].1 <= u64::MAX,
                entries@ == segments_entries(segments@.subrange(0, i as int)),
            decreases segments@.len() - i,
        {
            let (phys, len) = segments[i];
            let ghost before = entries@;
            proof {
                assert(segments@.subrange(0, i + 1).drop_last() =~= segments@.subrange(0, i as int));
            }
            let mut offset: usize = 0;
            while offset < len
                invariant
                    (phys, len) == segments@[i as int],
                    phys + len <= u64::MAX,
                    offset <= len,
                    entries@ + segment_entries(phys, offset as int, len as int) == before + segment_entries(
                        phys,
                        0,
                        len as int,
                    ),
                decreases len - offset,
            {
                let addr: u64 = phys + offset as u64;
                let page_offset: u64 = addr % 4096;
                let room: usize = (4096 - page_offset) as usize;
                let chunk: usize = if room < len - offset { room } else { len - offset };
                let ghost old_entries = entries@;
                entries.push(addr);
                proof {
                    assert(segment_entries(phys, offset as int, len as int) == seq![addr] + segment_entries(
                        phys,
                        offset + chunk,
                        len as int,
                    ));
                    assert(entries@ + segment_entries(phys, offset + chunk, len as int) =~= old_entries
                        + segment_entries(phys, offset as int, len as int));
                }
                offset = offset + chunk;
            }
            proof {
                assert(segment_entries(phys, len as int, len as int) =~= Seq::<u64>::empty());
                assert(entries@ =~= before + segment_entries(phys, 0, len as int));
            }
            i = i + 1;
        }
        assert(segments@.subrange(0, segments@.len() as int) =~= segments@);
        let n = entries.len();
        if n == 0 {
            return Err(NvmeError::InvalidArgument);
        }
        let prp1 = entries[0];
        if n == 1 {
            Ok(PrpBuilder { prp_list: None, prp1, prp2: 0 })
        } else if n == 2 {
            Ok(PrpBuilder { prp_list: None, prp1, prp2: entries[1] })
        } else {
            let mut list: Vec<u64> = Vec::new();
            let mut k: usize = 1;
            while k < n
                invariant
                    n == entries@.len(),
                    1 <= k <= n,
                    list@ == entries@.subrange(1, k as int),
                decreases n - k,
            {
                list.push(entries[k]);
                k = k + 1;
                assert(list@ =~= entries@.subrange(1, k as int));
            }
            assert(list@ =~= entries@.drop_first());
            Ok(PrpBuilder { prp_list: Some(list), prp1, prp2: 0 })
        }
    }

    /// Returns PRP1.
    pub fn prp1(&self) -> (res: u64)
        ensures
            res == self.prp1_spec(),
    {
        self.prp1
    }

    /// Returns PRP2.
    pub fn prp2(&self) -> (res: u64)
        ensures
            res == self.prp2_spec(),
    {
        self.prp2
    }

    /// Returns the entries of the PRP list, empty when there is none.
    pub fn list_entries(&self) -> (res: &[u64])
        ensures
            self.list() matches Some(l) ==> res@ == l,
            self.list() is None ==> res@.len() == 0,
    {
        match &self.prp_list {
            Some(v) => v.as_slice(),
            None => &[],
        }
    }

    /// Returns the PRP mode: a list when there is one, two pages when PRP2 is set, a single page otherwise.
    pub fn mode(&self) -> (res: PrpMode)
        ensures
            self.list() is Some ==> res == PrpMode::List,
            self.list() is None && self.prp2_spec() != 0 ==> res == PrpMode::Double,
            self.list() is None && self.prp2_spec() == 0 ==> res == PrpMode::Single,
    {
        if self.prp_list.is_some() {
            PrpMode::List
        } else if self.prp2 != 0 {
            PrpMode::Double
        } else {
            PrpMode::Single
        }
    }
}

/// Every PRP list entry of a contiguous transfer is the start of a page, and consecutive entries are one page
/// apart.
pub proof fn lemma_page_entries_aligned(base: u64, length: usize, k: int)
    requires
        length > 0,
        0 <= k < extra_pages(base, length),
        transfer_fits(base, length),
    ensures
        page_entries(base, length)[k] % 4096 == 0,
        k + 1 < extra_pages(base, length) ==> page_entries(base, length)[k + 1] == page_entries(base, length)[k]
            + 4096,
{
    let f = first_chunk(base, length);
    assert(f == 4096 - base % 4096) by {
        assert(length - f > 0);
    }
    assert((base + f) % 4096 == 0);
    assert((base + f + k * 4096) % 4096 == 0) by (nonlinear_arith)
        requires
            (base + f) % 4096 == 0,
            k >= 0,
    ;
}

} // verus!
