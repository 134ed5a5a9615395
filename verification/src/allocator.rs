//! The handle allocator: fresh slots from a counter, freed slots from a FIFO
//! queue with their generation bumped.

use crate::handle::{bump, bumped, Index};
use std::collections::VecDeque;
use vstd::prelude::*;

verus! {

/// The mathematical state of an [`IndexAllocator`].
pub struct AllocatorView {
    /// Number of slots issued so far; also the next fresh slot.
    pub next_slot: nat,
    /// Freed handles waiting for reuse, oldest first.
    pub queue: Seq<Index>,
    /// Handles reissued with a bumped generation that no storage has
    /// reconciled into its buffer yet, in the order they were reissued.
    pub pending: Seq<Index>,
}

impl AllocatorView {
    /// The state of a newly created allocator.
    pub open spec fn empty() -> AllocatorView {
        AllocatorView { next_slot: 0, queue: Seq::empty(), pending: Seq::empty() }
    }

    /// The counter fits the width of a slot position.
    pub open spec fn wf(self) -> bool {
        self.next_slot <= u32::MAX
    }

    /// Every handle that the allocator holds, queued or pending, names a
    /// slot that it has issued. An allocator reaches another state only by
    /// recycling a handle that it did not issue.
    pub open spec fn within(self) -> bool {
        &&& forall|i: int| 0 <= i < self.queue.len() ==> (#[trigger] self.queue[i]).index < self.next_slot
        &&& forall|i: int|
            0 <= i < self.pending.len() ==> (#[trigger] self.pending[i]).index < self.next_slot
    }

    /// A reservation is possible: either a freed slot is queued, or the
    /// counter has not run out of slot positions.
    pub open spec fn can_reserve(self) -> bool {
        self.queue.len() > 0 || self.next_slot < u32::MAX
    }

    /// The handle that the next reservation returns.
    pub open spec fn next_handle(self) -> Index {
        if self.queue.len() > 0 {
            Index { index: self.queue[0].index, generation: bumped(self.queue[0].generation) }
        } else {
            Index { index: self.next_slot as u32, generation: 0 }
        }
    }

    /// The state after one reservation.
    pub open spec fn reserved(self) -> AllocatorView {
        if self.queue.len() > 0 {
            AllocatorView {
                next_slot: self.next_slot,
                queue: self.queue.drop_first(),
                pending: self.pending.push(self.next_handle()),
            }
        } else {
            AllocatorView { next_slot: self.next_slot + 1, queue: self.queue, pending: self.pending }
        }
    }

    /// The state after `n` reservations in a row.
    pub open spec fn reserved_times(self, n: nat) -> AllocatorView
        decreases n,
    {
        if n == 0 {
            self
        } else {
            self.reserved_times((n - 1) as nat).reserved()
        }
    }

    /// The state after `handle` was queued for reuse.
    pub open spec fn recycled(self, handle: Index) -> AllocatorView {
        AllocatorView {
            next_slot: self.next_slot,
            queue: self.queue.push(handle),
            pending: self.pending,
        }
    }
}

/// A reservation keeps the allocator well-formed. Where all handles it
/// holds name issued slots, they still do afterwards, and so does the handle
/// it returns.
pub proof fn lemma_reserved_wf(a: AllocatorView)
    requires
        a.wf(),
        a.can_reserve(),
    ensures
        a.reserved().wf(),
        a.within() ==> a.reserved().within() && a.next_handle().index < a.reserved().next_slot,
{
    let after = a.reserved();
    if a.within() && a.queue.len() > 0 {
        assert(a.queue[0].index < a.next_slot);
        assert forall|i: int| 0 <= i < after.queue.len() implies (#[trigger] after.queue[i]).index
            < after.next_slot by {
            assert(after.queue[i] == a.queue[i + 1]);
        }
        assert forall|i: int| 0 <= i < after.pending.len() implies (#[trigger] after.pending[i]).index
            < after.next_slot by {
            if i < a.pending.len() {
                assert(after.pending[i] == a.pending[i]);
            }
        }
    }
}

/// Queueing a handle keeps the allocator well-formed. Where all handles it
/// holds name issued slots and the queued one does too, they still do
/// afterwards.
pub proof fn lemma_recycled_wf(a: AllocatorView, handle: Index)
    requires
        a.wf(),
    ensures
        a.recycled(handle).wf(),
        a.within() && handle.index < a.next_slot ==> a.recycled(handle).within(),
{
    let after = a.recycled(handle);
    if a.within() && handle.index < a.next_slot {
        assert forall|i: int| 0 <= i < after.queue.len() implies (#[trigger] after.queue[i]).index
            < after.next_slot by {
            if i < a.queue.len() {
                assert(after.queue[i] == a.queue[i]);
            }
        }
    }
}

/// Issues handles and keeps the freed ones until they are reused.
///
/// All operations take exclusive access, so the slot counter is a plain
/// integer.
pub struct IndexAllocator {
    next_index: u32,
    recycle_queue: VecDeque<Index>,
    recycled: Vec<Index>,
}

impl View for IndexAllocator {
    type V = AllocatorView;

    closed spec fn view(&self) -> AllocatorView {
        AllocatorView {
            next_slot: self.next_index as nat,
            queue: self.recycle_queue@,
            pending: self.recycled@,
        }
    }
}

impl Default for IndexAllocator {
    fn default() -> (allocator: IndexAllocator)
        ensures
            allocator@ == AllocatorView::empty(),
            allocator.wf(),
            allocator@.within(),
    {
        IndexAllocator { next_index: 0, recycle_queue: VecDeque::new(), recycled: Vec::new() }
    }
}

impl IndexAllocator {
    /// Well-formedness of the allocator, stated on its view.
    pub open spec fn wf(&self) -> bool {
        self@.wf()
    }

    /// Tells whether [`IndexAllocator::reserve`] may be called.
    pub fn can_reserve(&self) -> (possible: bool)
        ensures
            possible == self@.can_reserve(),
    {
        self.recycle_queue.len() > 0 || self.next_index < u32::MAX
    }

    /// Hands out a handle.
    ///
    /// The oldest queued handle is reissued with its generation bumped and
    /// recorded as pending; with nothing queued, the next fresh slot is issued
    /// with generation 0.
    pub fn reserve(&mut self) -> (handle: Index)
        requires
            old(self).wf(),
            old(self)@.can_reserve(),
        ensures
            final(self).wf(),
            handle == old(self)@.next_handle(),
            final(self)@ == old(self)@.reserved(),
            old(self)@.within() ==> final(self)@.within() && handle.index < final(self)@.next_slot,
    {
        proof {
            lemma_reserved_wf(old(self)@);
        }
        match self.recycle_queue.pop_front() {
            Some(freed) => {
                let handle = Index { index: freed.index, generation: bump(freed.generation) };
                self.recycled.push(handle);
                handle
            },
            None => {
                let handle = Index { index: self.next_index, generation: 0 };
                self.next_index = self.next_index + 1;
                handle
            },
        }
    }

    /// Returns the next fresh slot, which is also the number of slots issued.
    pub fn next_slot(&self) -> (n: u32)
        ensures
            n == self@.next_slot,
    {
        self.next_index
    }

    /// Hands over the pending handles, oldest first, and leaves none pending.
    pub(crate) fn take_pending(&mut self) -> (pending: Vec<Index>)
        ensures
            pending@ == old(self)@.pending,
            final(self)@ == (AllocatorView {
                next_slot: old(self)@.next_slot,
                queue: old(self)@.queue,
                pending: Seq::empty(),
            }),
    {
        let mut pending: Vec<Index> = Vec::new();
        std::mem::swap(&mut self.recycled, &mut pending);
        pending
    }

    /// Queues `index` for reuse, whatever handle it is. Its generation is
    /// bumped when a later reservation takes it from the queue.
    pub fn recycle(&mut self, index: Index)
        requires
            old(self).wf(),
        ensures
            final(self).wf(),
            final(self)@ == old(self)@.recycled(index),
            old(self)@.within() && index.index < old(self)@.next_slot ==> final(self)@.within(),
    {
        proof {
            lemma_recycled_wf(old(self)@, index);
        }
        self.recycle_queue.push_back(index);
    }
}

} // verus!
