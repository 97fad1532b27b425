//! NVMe submission and completion queue rings, command identifiers and queue pairs.

use vstd::prelude::*;

use crate::nvme::command::{CompletionEntry, SubmissionEntry};
use crate::nvme::prp::{NvmeError, PrpBuilder};

use std::collections::BTreeMap;
use crate::nvme::regs::{MmioWrite, NvmeRegs, doorbell_offset_spec, doorbells_computable};

verus! {

/// Default depth of a queue.
pub const DEFAULT_QUEUE_DEPTH: u16 = 64;

/// Number of commands submitted to a ring and not yet consumed by the controller.
pub open spec fn outstanding(tail: u16, head: u16, depth: u16) -> int {
    (tail - head + depth) % (depth as int)
}

/// Submission queue ring: the driver writes commands at the tail, the controller consumes them from the head.
#[derive(Debug, Clone, Copy)]
pub struct SubmissionQueue {
    /// Number of slots of the ring.
    depth: u16,
    /// Next slot to fill.
    tail: u16,
    /// Next slot the controller consumes.
    head: u16,
}

impl SubmissionQueue {
    /// Number of slots.
    pub closed spec fn depth_spec(&self) -> u16 {
        self.depth
    }

    /// Next slot to fill.
    pub closed spec fn tail_spec(&self) -> u16 {
        self.tail
    }

    /// Next slot the controller consumes.
    pub closed spec fn head_spec(&self) -> u16 {
        self.head
    }

    /// Whether the ring is consistent: at least one slot, head and tail inside the ring.
    pub open spec fn wf(&self) -> bool {
        self.depth_spec() > 0 && self.tail_spec() < self.depth_spec() && self.head_spec() < self.depth_spec()
    }

    /// Creates an empty submission queue of the given depth.
    pub fn new(depth: u16) -> (res: Self)
        requires
            depth > 0,
        ensures
            res.wf(),
            res.depth_spec() == depth,
            res.tail_spec() == 0,
            res.head_spec() == 0,
    {
        SubmissionQueue { depth, tail: 0, head: 0 }
    }

    /// Reserves the slot of the next command: returns the slot to write it in and advances the tail, or returns
    /// `None` when the ring is full (the slot after the tail is the head).
    pub fn submit(&mut self) -> (res: Option<u16>)
        requires
            old(self).wf(),
        ensures
            final(self).wf(),
            final(self).depth_spec() == old(self).depth_spec(),
            final(self).head_spec() == old(self).head_spec(),
            (old(self).tail_spec() + 1) % (old(self).depth_spec() as int) == old(self).head_spec() ==> res is None
                && final(self).tail_spec() == old(self).tail_spec(),
            (old(self).tail_spec() + 1) % (old(self).depth_spec() as int) != old(self).head_spec() ==> res == Some(
                old(self).tail_spec(),
            ) && final(self).tail_spec() == (old(self).tail_spec() + 1) % (old(self).depth_spec() as int),
    {
        let next_tail: u16 = ((self.tail as u32 + 1) % (self.depth as u32)) as u16;
        if next_tail == self.head {
            return None;
        }
        let slot = self.tail;
        self.tail = next_tail;
        Some(slot)
    }

    /// Returns the current tail.
    pub fn tail(&self) -> (res: u16)
        ensures
            res == self.tail_spec(),
    {
        self.tail
    }

    /// Returns the depth.
    pub fn depth(&self) -> (res: u16)
        ensures
            res == self.depth_spec(),
    {
        self.depth
    }

    /// Updates the head, as reported by the controller in a completion entry.
    pub fn update_head(&mut self, head: u16)
        requires
            old(self).wf(),
            head < old(self).depth_spec(),
        ensures
            final(self).wf(),
            final(self).head_spec() == head,
            final(self).tail_spec() == old(self).tail_spec(),
            final(self).depth_spec() == old(self).depth_spec(),
    {
        self.head = head;
    }
}

/// A submission never fills the last free slot: the number of outstanding commands stays below the depth, and
/// each accepted submission adds exactly one.
pub proof fn lemma_submit_keeps_a_free_slot(tail: u16, head: u16, depth: u16)
    requires
        depth > 0,
        tail < depth,
        head < depth,
        (tail + 1) % (depth as int) != head,
    ensures
        outstanding(((tail + 1) % (depth as int)) as u16, head, depth) == outstanding(tail, head, depth) + 1,
        outstanding(((tail + 1) % (depth as int)) as u16, head, depth) < depth,
{
    if tail + 1 == depth {
        vstd::arithmetic::div_mod::lemma_mod_self_0(depth as int);
    } else {
        vstd::arithmetic::div_mod::lemma_small_mod((tail + 1) as nat, depth as nat);
    }
    if tail >= head {
        assert((tail - head + depth) % (depth as int) == tail - head) by {
            vstd::arithmetic::div_mod::lemma_mod_add_multiples_vanish((tail - head) as int, depth as int);
            vstd::arithmetic::div_mod::lemma_small_mod((tail - head) as nat, depth as nat);
        }
    } else {
        assert((tail - head + depth) % (depth as int) == tail - head + depth) by {
            vstd::arithmetic::div_mod::lemma_small_mod((tail - head + depth) as nat, depth as nat);
        }
    }
    let nt = (tail + 1) % (depth as int);
    if nt >= head {
        assert((nt - head + depth) % (depth as int) == nt - head) by {
            vstd::arithmetic::div_mod::lemma_mod_add_multiples_vanish((nt - head) as int, depth as int);
            vstd::arithmetic::div_mod::lemma_small_mod((nt - head) as nat, depth as nat);
        }
    } else {
        assert((nt - head + depth) % (depth as int) == nt - head + depth) by {
            vstd::arithmetic::div_mod::lemma_small_mod((nt - head + depth) as nat, depth as nat);
        }
    }
}

/// Completion queue ring: the controller posts entries, the driver consumes them at the head; the phase tag of
/// a fresh entry equals the expected phase, which flips each time the head wraps around.
#[derive(Debug, Clone, Copy)]
pub struct CompletionQueue {
    /// Number of slots of the ring.
    depth: u16,
    /// Next slot to consume.
    head: u16,
    /// Phase tag of fresh entries.
    phase: bool,
}

impl CompletionQueue {
    /// Number of slots.
    pub closed spec fn depth_spec(&self) -> u16 {
        self.depth
    }

    /// Next slot to consume.
    pub closed spec fn head_spec(&self) -> u16 {
        self.head
    }

    /// Phase tag of fresh entries.
    pub closed spec fn phase_spec(&self) -> bool {
        self.phase
    }

    /// Whether the ring is consistent: at least one slot, head inside the ring.
    pub open spec fn wf(&self) -> bool {
        self.depth_spec() > 0 && self.head_spec() < self.depth_spec()
    }

    /// Creates an empty completion queue of the given depth, expecting phase tag 1.
    pub fn new(depth: u16) -> (res: Self)
        requires
            depth > 0,
        ensures
            res.wf(),
            res.depth_spec() == depth,
            res.head_spec() == 0,
            res.phase_spec(),
    {
        CompletionQueue { depth, head: 0, phase: true }
    }

    /// Consumes the entry found at the head, if it is fresh (its phase tag is the expected one): advances the
    /// head, flipping the expected phase when it wraps around. A stale entry gives `None` and changes nothing.
    pub fn poll(&mut self, entry: CompletionEntry) -> (res: Option<CompletionEntry>)
        requires
            old(self).wf(),
        ensures
            final(self).wf(),
            final(self).depth_spec() == old(self).depth_spec(),
            entry.phase_spec() != old(self).phase_spec() ==> res is None && *final(self) == *old(self),
            entry.phase_spec() == old(self).phase_spec() ==> res == Some(entry) && final(self).head_spec() == (
            old(self).head_spec() + 1) % (old(self).depth_spec() as int) && (final(self).phase_spec() == (if final(self).head_spec() == 0 { !old(self).phase_spec() } else { old(self).phase_spec() })),
    {
        if entry.phase() != self.phase {
            return None;
        }
        self.head = ((self.head as u32 + 1) % (self.depth as u32)) as u16;
        if self.head == 0 {
            self.phase = !self.phase;
        }
        Some(entry)
    }

    /// Returns the current head.
    pub fn head(&self) -> (res: u16)
        ensures
            res == self.head_spec(),
    {
        self.head
    }
}

/// Allocator of command identifiers, cycling through `0..max`.
#[derive(Debug, Clone, Copy)]
pub struct CommandIdAllocator {
    /// Next identifier to hand out.
    next: u16,
    /// Number of identifiers.
    max: u16,
}

impl CommandIdAllocator {
    /// Next identifier to hand out.
    pub closed spec fn next_spec(&self) -> u16 {
        self.next
    }

    /// Number of identifiers.
    pub closed spec fn max_spec(&self) -> u16 {
        self.max
    }

    /// Whether the allocator is consistent.
    pub open spec fn wf(&self) -> bool {
        self.max_spec() > 0 && self.next_spec() < self.max_spec()
    }

    /// Creates an allocator of the identifiers `0..max`, starting at 0.
    pub fn new(max: u16) -> (res: Self)
        requires
            max > 0,
        ensures
            res.wf(),
            res.next_spec() == 0,
            res.max_spec() == max,
    {
        CommandIdAllocator { next: 0, max }
    }

    /// Hands out the next identifier; identifiers follow each other modulo `max`.
    pub fn allocate(&mut self) -> (res: u16)
        requires
            old(self).wf(),
        ensures
            final(self).wf(),
            res == old(self).next_spec(),
            res < old(self).max_spec(),
            final(self).max_spec() == old(self).max_spec(),
            final(self).next_spec() == (res + 1) % (old(self).max_spec() as int),
    {
        let current = self.next;
        self.next = ((current as u32 + 1) % (self.max as u32)) as u16;
        current
    }
}

/// Whether `states` are the states of an allocator that starts fresh with `max` identifiers, each state being
/// the one [`CommandIdAllocator::allocate`] leaves after the previous one.
pub open spec fn allocation_run(states: Seq<CommandIdAllocator>, max: u16) -> bool {
    &&& states.len() > 0
    &&& states[0].next_spec() == 0
    &&& states[0].max_spec() == max
    &&& forall|i: int|
        0 <= i < states.len() - 1 ==> #[trigger] states[i + 1].max_spec() == states[i].max_spec()
            && states[i + 1].next_spec() == (states[i].next_spec() + 1) % (states[i].max_spec() as int)
}

/// Identifiers cycle: the `i`-th call (counting from 0) of [`CommandIdAllocator::allocate`] on an allocator made
/// by [`CommandIdAllocator::new`] with `max` identifiers hands out `i % max`, so every identifier is below `max`
/// and any `max` consecutive calls hand out pairwise distinct identifiers. `states[i]` is the allocator before
/// the `i`-th call, whose result is `states[i].next_spec()`.
pub proof fn lemma_allocations_cycle(states: Seq<CommandIdAllocator>, max: u16)
    requires
        max > 0,
        allocation_run(states, max),
    ensures
        forall|i: int| 0 <= i < states.len() ==> #[trigger] states[i].next_spec() == i % (max as int),
        forall|i: int| 0 <= i < states.len() ==> #[trigger] states[i].next_spec() < max,
        forall|i: int, j: int|
            0 <= i < j < states.len() && j - i < max ==> #[trigger] states[i].next_spec()
                != #[trigger] states[j].next_spec(),
    decreases states.len(),
{
    if states.len() == 1 {
        assert(states[0].next_spec() == 0int % (max as int)) by {
            vstd::arithmetic::div_mod::lemma_small_mod(0, max as nat);
        }
    } else {
        let prefix = states.drop_last();
        assert forall|i: int| 0 <= i < prefix.len() - 1 implies #[trigger] prefix[i + 1].max_spec()
            == prefix[i].max_spec() && prefix[i + 1].next_spec() == (prefix[i].next_spec() + 1) % (
        prefix[i].max_spec() as int) by {
            assert(states[i + 1].max_spec() == states[i].max_spec());
        }
        lemma_allocations_cycle(prefix, max);
        let k = states.len() - 1;
        assert(states[k - 1].next_spec() == (k - 1) % (max as int)) by {
            assert(prefix[k - 1] == states[k - 1]);
        }
        lemma_run_keeps_max(states, max, k - 1);
        assert(states[(k - 1) + 1].max_spec() == states[k - 1].max_spec());
        assert(states[k].next_spec() == ((k - 1) % (max as int) + 1) % (max as int));
        assert(((k - 1) % (max as int) + 1) % (max as int) == k % (max as int)) by {
            vstd::arithmetic::div_mod::lemma_add_mod_noop_right(1, k - 1, max as int);
        }
        assert forall|i: int| 0 <= i < states.len() implies #[trigger] states[i].next_spec() == i % (
        max as int) by {
            if i < k {
                assert(prefix[i] == states[i]);
            }
        }
    }
    assert forall|i: int, j: int|
        0 <= i < j < states.len() && j - i < max implies #[trigger] states[i].next_spec()
        != #[trigger] states[j].next_spec() by {
        assert(states[i].next_spec() == i % (max as int));
        assert(states[j].next_spec() == j % (max as int));
        if i % (max as int) == j % (max as int) {
            vstd::arithmetic::div_mod::lemma_mod_equivalence(j, i, max as int);
            vstd::arithmetic::div_mod::lemma_mod_self_0(max as int);
            vstd::arithmetic::div_mod::lemma_small_mod((j - i) as nat, max as nat);
        }
    }
}

proof fn lemma_run_keeps_max(states: Seq<CommandIdAllocator>, max: u16, i: int)
    requires
        allocation_run(states, max),
        0 <= i < states.len(),
    ensures
        states[i].max_spec() == max,
    decreases i,
{
    if i > 0 {
        lemma_run_keeps_max(states, max, i - 1);
        assert(states[(i - 1) + 1].max_spec() == states[i - 1].max_spec());
    }
}

/// A command prepared for submission: its identifier, the entry carrying it, the ring slot it goes in (`None`
/// when the ring was full) and the doorbell write that publishes the new tail.
#[derive(Debug, Clone, Copy)]
pub struct Submission {
    /// Command identifier.
    pub cid: u16,
    /// Entry to write in the slot.
    pub entry: SubmissionEntry,
    /// Slot of the submission ring, if the ring had room.
    pub slot: Option<u16>,
    /// Doorbell write publishing the tail.
    pub doorbell: MmioWrite,
}

/// A consumed completion and the doorbell write publishing the new completion head.
#[derive(Debug, Clone, Copy)]
pub struct Completion {
    /// The completion entry.
    pub entry: CompletionEntry,
    /// Doorbell write publishing the head.
    pub doorbell: MmioWrite,
}

/// What a submitted command holds on to until it completes: the PRP list describing its transfer, if any.
#[derive(Debug)]
pub struct PendingCommand {
    /// PRP description of the transfer.
    pub prp: Option<PrpBuilder>,
}

/// A pair of submission and completion queues sharing an identifier.
#[derive(Debug)]
pub struct QueuePair {
    /// Queue identifier.
    pub id: u16,
    /// Submission queue.
    pub sq: SubmissionQueue,
    /// Completion queue.
    pub cq: CompletionQueue,
    /// Command identifier allocator.
    pub cid_alloc: CommandIdAllocator,
    /// The submitted commands not yet completed, by command identifier.
    pub pending: BTreeMap<u16, PendingCommand>,
    /// Doorbell stride.
    pub doorbell_stride: usize,
}

impl QueuePair {
    /// Submission queue.
    pub closed spec fn sq_spec(&self) -> SubmissionQueue {
        self.sq
    }

    /// Completion queue.
    pub closed spec fn cq_spec(&self) -> CompletionQueue {
        self.cq
    }

    /// Command identifier allocator.
    pub closed spec fn cid_spec(&self) -> CommandIdAllocator {
        self.cid_alloc
    }

    /// Doorbell stride.
    pub closed spec fn stride_spec(&self) -> usize {
        self.doorbell_stride
    }

    /// The submitted commands not yet completed, by command identifier.
    pub closed spec fn pending_spec(&self) -> Map<u16, PendingCommand> {
        self.pending@
    }

    /// Whether the queue pair is consistent and its doorbells addressable.
    pub open spec fn wf(&self) -> bool {
        &&& self.sq_spec().wf()
        &&& self.cq_spec().wf()
        &&& self.cid_spec().wf()
        &&& self.sq_spec().depth_spec() == self.cq_spec().depth_spec()
        &&& doorbells_computable(self.id, self.stride_spec())
    }

    /// Creates a queue pair of the given depth.
    pub fn new(id: u16, depth: u16, doorbell_stride: usize) -> (res: Self)
        requires
            depth > 0,
            doorbells_computable(id, doorbell_stride),
        ensures
            res.wf(),
            res.id == id,
            res.sq_spec().depth_spec() == depth,
            res.sq_spec().tail_spec() == 0,
            res.sq_spec().head_spec() == 0,
            res.cq_spec().head_spec() == 0,
            res.cq_spec().phase_spec(),
            res.cid_spec().next_spec() == 0,
            res.cid_spec().max_spec() == depth,
            res.stride_spec() == doorbell_stride,
            res.pending_spec() == Map::<u16, PendingCommand>::empty(),
    {
        QueuePair {
            id,
            sq: SubmissionQueue::new(depth),
            cq: CompletionQueue::new(depth),
            cid_alloc: CommandIdAllocator::new(depth),
            pending: BTreeMap::new(),
            doorbell_stride,
        }
    }

    /// Prepares the submission of a command: allocates its identifier, stamps it in the entry, keeps its PRP
    /// list among the pending commands under that identifier, reserves a slot and rings the submission
    /// doorbell with the new tail.
    pub fn submit(&mut self, regs: &NvmeRegs, entry: SubmissionEntry, prp: Option<PrpBuilder>) -> (res: Submission)
        requires
            old(self).wf(),
        ensures
            final(self).pending_spec() == old(self).pending_spec().insert(res.cid, PendingCommand { prp }),
            final(self).wf(),
            final(self).id == old(self).id,
            res.cid == old(self).cid_spec().next_spec(),
            res.entry == (SubmissionEntry { cid: res.cid, ..entry }),
            final(self).cid_spec().next_spec() == (res.cid + 1) % (old(self).cid_spec().max_spec() as int),
            final(self).sq_spec().depth_spec() == old(self).sq_spec().depth_spec(),
            final(self).cid_spec().max_spec() == old(self).cid_spec().max_spec(),
            final(self).stride_spec() == old(self).stride_spec(),
            (old(self).sq_spec().tail_spec() + 1) % (old(self).sq_spec().depth_spec() as int)
                == old(self).sq_spec().head_spec() ==> res.slot is None && final(self).sq_spec().tail_spec()
                == old(self).sq_spec().tail_spec(),
            (old(self).sq_spec().tail_spec() + 1) % (old(self).sq_spec().depth_spec() as int)
                != old(self).sq_spec().head_spec() ==> res.slot == Some(old(self).sq_spec().tail_spec())
                && final(self).sq_spec().tail_spec() == (old(self).sq_spec().tail_spec() + 1) % (old(
                self).sq_spec().depth_spec() as int),
            final(self).sq_spec().head_spec() == old(self).sq_spec().head_spec(),
            final(self).cq_spec() == old(self).cq_spec(),
            res.doorbell == (MmioWrite {
                offset: doorbell_offset_spec(2 * old(self).id, old(self).stride_spec()) as usize,
                value: final(self).sq_spec().tail_spec() as u32,
            }),
    {
        broadcast use vstd::std_specs::btree::group_btree_axioms;

        let cid = self.cid_alloc.allocate();
        let mut entry = entry;
        entry.cid = cid;
        let _replaced = self.pending.insert(cid, PendingCommand { prp });
        let slot = self.sq.submit();
        let doorbell = regs.write_sq_doorbell(self.id, self.doorbell_stride, self.sq.tail());
        Submission { cid, entry, slot, doorbell }
    }

    /// Consumes the entry found at the head of the completion queue if it is fresh: records the submission head
    /// it reports, drops the pending command it completes and rings the completion doorbell with the new head.
    pub fn poll_completion(&mut self, regs: &NvmeRegs, entry: CompletionEntry) -> (res: Option<Completion>)
        requires
            old(self).wf(),
            entry.sq_head_spec() < old(self).sq_spec().depth_spec(),
        ensures
            final(self).wf(),
            final(self).id == old(self).id,
            entry.phase_spec() != old(self).cq_spec().phase_spec() ==> res is None && *final(self) == *old(self),
            entry.phase_spec() == old(self).cq_spec().phase_spec() ==> final(self).pending_spec() == old(
                self,
            ).pending_spec().remove(entry.cid_spec()),
            final(self).sq_spec().depth_spec() == old(self).sq_spec().depth_spec(),
            final(self).cq_spec().depth_spec() == old(self).cq_spec().depth_spec(),
            final(self).sq_spec().tail_spec() == old(self).sq_spec().tail_spec(),
            final(self).cid_spec() == old(self).cid_spec(),
            final(self).stride_spec() == old(self).stride_spec(),
            entry.phase_spec() == old(self).cq_spec().phase_spec() ==> final(self).cq_spec().head_spec() == (old(
                self).cq_spec().head_spec() + 1) % (old(self).cq_spec().depth_spec() as int) && final(
                self).cq_spec().phase_spec() == (if final(self).cq_spec().head_spec() == 0 {
                !old(self).cq_spec().phase_spec()
            } else {
                old(self).cq_spec().phase_spec()
            }),
            entry.phase_spec() == old(self).cq_spec().phase_spec() ==> (res matches Some(c) && c.entry == entry
                && final(self).sq_spec().head_spec() == entry.sq_head_spec() && c.doorbell == (MmioWrite {
                offset: doorbell_offset_spec(2 * old(self).id + 1, old(self).stride_spec()) as usize,
                value: final(self).cq_spec().head_spec() as u32,
            })),
    {
        broadcast use vstd::std_specs::btree::group_btree_axioms;

        match self.cq.poll(entry) {
            Some(e) => {
                self.sq.update_head(e.sq_head());
                let cid = e.cid();
                let _done = self.pending.remove(&cid);
                let doorbell = regs.write_cq_doorbell(self.id, self.doorbell_stride, self.cq.head());
                Some(Completion { entry: e, doorbell })
            },
            None => None,
        }
    }

    /// Decides what a consumed completion means for a command being waited for: `None` when it belongs to another
    /// command, its entry when it succeeded, and [`NvmeError::Io`] when it failed.
    pub fn completion_outcome(entry: CompletionEntry, cid: u16) -> (res: Option<Result<CompletionEntry, NvmeError>>)
        ensures
            entry.cid_spec() != cid ==> res is None,
            entry.cid_spec() == cid && entry.status_spec() == 0 ==> res == Some(
                Ok::<CompletionEntry, NvmeError>(entry),
            ),
            entry.cid_spec() == cid && entry.status_spec() != 0 ==> res == Some(
                Err::<CompletionEntry, NvmeError>(NvmeError::Io),
            ),
            entry.cid_status & 0xFFFF != cid ==> res is None,
            entry.cid_status & 0xFFFF == cid && entry.cid_status >> 17u32 == 0 ==> res == Some(
                Ok::<CompletionEntry, NvmeError>(entry),
            ),
            entry.cid_status & 0xFFFF == cid && entry.cid_status >> 17u32 != 0 ==> res == Some(
                Err::<CompletionEntry, NvmeError>(NvmeError::Io),
            ),
    {
        if entry.cid() == cid {
            if entry.is_success() {
                Some(Ok(entry))
            } else {
                Some(Err(NvmeError::Io))
            }
        } else {
            None
        }
    }

    /// Returns the depth of the queues.
    pub fn depth(&self) -> (res: u16)
        ensures
            res == self.sq_spec().depth_spec(),
    {
        self.sq.depth()
    }

    /// Returns the tail of the submission queue.
    pub fn sq_tail(&self) -> (res: u16)
        ensures
            res == self.sq_spec().tail_spec(),
    {
        self.sq.tail()
    }

    /// Returns the head of the completion queue.
    pub fn cq_head(&self) -> (res: u16)
        ensures
            res == self.cq_spec().head_spec(),
    {
        self.cq.head()
    }
}

} // verus!
