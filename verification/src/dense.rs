//! The storage: a growable buffer of generation-stamped cells, addressed by
//! handles.

use crate::allocator::{AllocatorView, IndexAllocator};
use crate::handle::Index;
use vstd::prelude::*;

verus! {

/// One cell of the backing buffer.
pub struct Entry<T> {
    /// The stored value, if the slot is occupied.
    pub value: Option<T>,
    /// The generation that a handle must carry to reach this slot.
    pub generation: u32,
}

/// A write was attempted through a handle of a superseded generation.
#[derive(Debug, Clone, Copy, PartialEq, Eq, Structural)]
pub struct InvalidGenerationError {
    /// The handle that was refused.
    pub index: Index,
    /// The generation currently recorded for the handle's slot.
    pub current_generation: u32,
}

/// An unoccupied cell of the given generation.
pub open spec fn vacant<T>(generation: u32) -> Entry<T> {
    Entry { value: None, generation }
}

/// The number of cells that hold a value.
pub open spec fn occupied<T>(slots: Seq<Entry<T>>) -> nat
    decreases slots.len(),
{
    if slots.len() == 0 {
        0
    } else {
        occupied(slots.drop_last()) + if slots.last().value is Some {
            1nat
        } else {
            0nat
        }
    }
}

/// `slots` extended with vacant cells of generation 0 up to length `n`;
/// unchanged if it is already that long.
pub open spec fn grown<T>(slots: Seq<Entry<T>>, n: nat) -> Seq<Entry<T>> {
    if slots.len() >= n {
        slots
    } else {
        slots + Seq::new((n - slots.len()) as nat, |i: int| vacant::<T>(0))
    }
}

/// `slots` after each pending handle, in order, has emptied its slot and
/// stamped its generation on it. A later handle for the same slot overrides
/// an earlier one.
pub open spec fn stamped<T>(slots: Seq<Entry<T>>, pending: Seq<Index>) -> Seq<Entry<T>>
    decreases pending.len(),
{
    if pending.len() == 0 {
        slots
    } else {
        let earlier = stamped(slots, pending.drop_last());
        let handle = pending.last();
        if handle.index < earlier.len() {
            earlier.update(handle.index as int, vacant(handle.generation))
        } else {
            earlier
        }
    }
}

/// The mathematical state of a [`DenseStorage`].
pub struct StorageView<T> {
    /// The cells of the backing buffer, by slot position.
    pub slots: Seq<Entry<T>>,
    /// The state of the owned allocator.
    pub allocator: AllocatorView,
}

impl<T> StorageView<T> {
    /// The state of a newly created storage.
    pub open spec fn empty() -> StorageView<T> {
        StorageView { slots: Seq::empty(), allocator: AllocatorView::empty() }
    }

    /// The allocator is well-formed, every handle that it holds names a slot
    /// that it has issued, and the buffer holds no cell for a slot that was
    /// never issued.
    pub open spec fn wf(self) -> bool {
        &&& self.allocator.wf()
        &&& self.allocator.within()
        &&& self.slots.len() <= self.allocator.next_slot
    }

    /// The state after reconciliation: the buffer covers every issued slot,
    /// every pending handle has stamped its slot, and nothing is pending.
    pub open spec fn flushed(self) -> StorageView<T> {
        StorageView {
            slots: stamped(grown(self.slots, self.allocator.next_slot), self.allocator.pending),
            allocator: AllocatorView {
                next_slot: self.allocator.next_slot,
                queue: self.allocator.queue,
                pending: Seq::empty(),
            },
        }
    }

    /// `handle` names a slot of the buffer and carries its current generation.
    pub open spec fn accepts(self, handle: Index) -> bool {
        &&& handle.index < self.slots.len()
        &&& self.slots[handle.index as int].generation == handle.generation
    }

    /// The value that `handle` reaches, if any.
    pub open spec fn lookup(self, handle: Index) -> Option<T> {
        if self.accepts(handle) {
            self.slots[handle.index as int].value
        } else {
            None
        }
    }

    /// The generation that the storage reports for the slot of `handle`: the
    /// one recorded in its cell, and 0, the generation of a new cell, for a
    /// slot that has no cell.
    pub open spec fn current_generation(self, handle: Index) -> u32 {
        if handle.index < self.slots.len() {
            self.slots[handle.index as int].generation
        } else {
            0
        }
    }

    /// The outcome of writing through `handle`: whether the slot held a
    /// value, if the handle is accepted, and otherwise the refusal, which
    /// names the handle and the generation reported for its slot.
    pub open spec fn put_result(self, handle: Index) -> Result<bool, InvalidGenerationError> {
        if self.accepts(handle) {
            Ok(self.slots[handle.index as int].value is Some)
        } else {
            Err(
                InvalidGenerationError {
                    index: handle,
                    current_generation: self.current_generation(handle),
                },
            )
        }
    }

    /// The state after writing `value` through `handle`: the slot holds the
    /// value if the handle is accepted, and nothing changes otherwise.
    pub open spec fn put(self, handle: Index, value: T) -> StorageView<T> {
        if self.accepts(handle) {
            StorageView {
                slots: self.slots.update(
                    handle.index as int,
                    Entry { value: Some(value), generation: handle.generation },
                ),
                allocator: self.allocator,
            }
        } else {
            self
        }
    }

    /// The state after the slot of `handle` was emptied, if the handle is
    /// accepted; unchanged otherwise.
    pub open spec fn cleared(self, handle: Index) -> StorageView<T> {
        if self.accepts(handle) {
            StorageView {
                slots: self.slots.update(handle.index as int, vacant(handle.generation)),
                allocator: self.allocator,
            }
        } else {
            self
        }
    }

    /// The state after one reservation from the storage's allocator.
    pub open spec fn reserved(self) -> StorageView<T> {
        StorageView { slots: self.slots, allocator: self.allocator.reserved() }
    }

    /// The state after `handle` was queued for reuse.
    pub open spec fn recycled(self, handle: Index) -> StorageView<T> {
        StorageView { slots: self.slots, allocator: self.allocator.recycled(handle) }
    }
}

/// Emptying or filling one cell changes the count of occupied cells by the
/// difference between the two cells.
pub proof fn lemma_occupied_update<T>(slots: Seq<Entry<T>>, i: int, entry: Entry<T>)
    requires
        0 <= i < slots.len(),
    ensures
        occupied(slots.update(i, entry)) + (if slots[i].value is Some {
            1nat
        } else {
            0nat
        }) == occupied(slots) + (if entry.value is Some {
            1nat
        } else {
            0nat
        }),
    decreases slots.len(),
{
    let after = slots.update(i, entry);
    if i == slots.len() - 1 {
        assert(after.drop_last() == slots.drop_last());
    } else {
        assert(after.drop_last() == slots.drop_last().update(i, entry));
        lemma_occupied_update(slots.drop_last(), i, entry);
    }
}

/// No more cells are occupied than there are cells.
pub proof fn lemma_occupied_bound<T>(slots: Seq<Entry<T>>)
    ensures
        occupied(slots) <= slots.len(),
    decreases slots.len(),
{
    if slots.len() > 0 {
        lemma_occupied_bound(slots.drop_last());
    }
}

/// Where some cell holds a value, at least one cell is occupied.
pub proof fn lemma_occupied_positive<T>(slots: Seq<Entry<T>>, i: int)
    requires
        0 <= i < slots.len(),
        slots[i].value is Some,
    ensures
        occupied(slots) >= 1,
    decreases slots.len(),
{
    if i < slots.len() - 1 {
        lemma_occupied_positive(slots.drop_last(), i);
    }
}

/// A slot map: values in a growable buffer, reached through handles issued by
/// the storage's own allocator.
pub struct DenseStorage<T> {
    buffer: Vec<Entry<T>>,
    len: u32,
    index_allocator: IndexAllocator,
}

impl<T> View for DenseStorage<T> {
    type V = StorageView<T>;

    closed spec fn view(&self) -> StorageView<T> {
        StorageView { slots: self.buffer@, allocator: self.index_allocator@ }
    }
}

impl<T> Default for DenseStorage<T> {
    fn default() -> (storage: DenseStorage<T>)
        ensures
            storage@ == StorageView::<T>::empty(),
            storage.wf(),
    {
        DenseStorage { buffer: Vec::new(), len: 0, index_allocator: IndexAllocator::default() }
    }
}

impl<T> DenseStorage<T> {
    /// The count of stored items that the storage keeps.
    pub closed spec fn counted(&self) -> nat {
        self.len as nat
    }

    /// Well-formedness: the view is well-formed and the count that the
    /// storage keeps is the number of occupied cells.
    pub open spec fn wf(&self) -> bool {
        &&& self@.wf()
        &&& self.counted() == occupied(self@.slots)
    }

    /// Returns the number of stored items.
    pub fn len(&self) -> (n: usize)
        requires
            self.wf(),
        ensures
            n == occupied(self@.slots),
    {
        self.len as usize
    }

    /// Returns `true` if no item is stored.
    pub fn is_empty(&self) -> (empty: bool)
        requires
            self.wf(),
        ensures
            empty == (occupied(self@.slots) == 0),
    {
        self.len() == 0
    }

    /// Returns the number of cells of the backing buffer.
    pub fn buffer_len(&self) -> (n: usize)
        ensures
            n == self@.slots.len(),
    {
        self.buffer.len()
    }

    /// Gives access to the allocator, to reserve and recycle handles.
    ///
    /// The buffer and the count are untouched: the storage stays well-formed
    /// if the allocator is left well-formed with a slot counter that still
    /// covers the buffer.
    pub fn index_allocator_mut(&mut self) -> (allocator: &mut IndexAllocator)
        ensures
            allocator@ == old(self)@.allocator,
            final(self)@ == (StorageView { slots: old(self)@.slots, allocator: final(allocator)@ }),
            final(self).counted() == old(self).counted(),
    {
        &mut self.index_allocator
    }

    /// Reconciles the buffer with the allocator: grows it to cover every
    /// issued slot with vacant cells of generation 0, then lets each pending
    /// handle, oldest first, empty its slot and stamp its generation on it.
    pub fn flush(&mut self)
        requires
            old(self).wf(),
        ensures
            final(self).wf(),
            final(self)@ == old(self)@.flushed(),
            final(self)@.slots.len() == final(self)@.allocator.next_slot,
    {
        let ghost before = self@;
        let new_len = self.index_allocator.next_slot() as usize;
        while self.buffer.len() < new_len
            invariant
                self.index_allocator == old(self).index_allocator,
                self.len == old(self).len,
                before == old(self)@,
                before.slots.len() <= self.buffer@.len(),
                self.buffer@.len() <= new_len || self.buffer@ == before.slots,
                self.buffer@ == grown(before.slots, self.buffer@.len()),
                occupied(self.buffer@) == occupied(before.slots),
            decreases new_len - self.buffer.len(),
        {
            let ghost shorter = self.buffer@;
            self.buffer.push(Entry { value: None, generation: 0 });
            proof {
                assert(self.buffer@.drop_last() == shorter);
                assert(self.buffer@ == grown(before.slots, self.buffer@.len()));
            }
        }
        let ghost base = self.buffer@;
        proof {
            assert(base == grown(before.slots, before.allocator.next_slot));
        }
        let pending = self.index_allocator.take_pending();
        let mut k: usize = 0;
        while k < pending.len()
            invariant
                k <= pending.len(),
                pending@ == before.allocator.pending,
                before.wf(),
                self.index_allocator@ == before.flushed().allocator,
                self.buffer@.len() == before.allocator.next_slot,
                self.buffer@ == stamped(base, pending@.take(k as int)),
                self.len == occupied(self.buffer@),
            decreases pending.len() - k,
        {
            let handle = pending[k];
            let i = handle.index as usize;
            let ghost stale = self.buffer@;
            proof {
                assert(before.allocator.pending[k as int].index < before.allocator.next_slot);
                lemma_occupied_update(stale, i as int, vacant::<T>(handle.generation));
                if stale[i as int].value is Some {
                    lemma_occupied_positive(stale, i as int);
                }
            }
            if self.buffer[i].value.is_some() {
                self.len = self.len - 1;
            }
            self.buffer[i] = Entry { value: None, generation: handle.generation };
            proof {
                assert(pending@.take(k + 1).drop_last() == pending@.take(k as int));
                assert(pending@.take(k + 1).last() == handle);
            }
            k = k + 1;
        }
        proof {
            assert(pending@.take(k as int) == pending@);
        }
    }

    /// Stores `value` in the slot of `index`, after reconciling.
    ///
    /// Succeeds if the slot's generation is that of the handle, and then tells
    /// whether the slot already held a value. Otherwise the handle is stale:
    /// nothing is stored and the error reports the slot's current generation.
    /// A handle whose slot this storage's allocator never issued is stale
    /// too; its slot has no cell, and the error reports generation 0.
    pub fn insert(&mut self, index: Index, value: T) -> (res: Result<bool, InvalidGenerationError>)
        requires
            old(self).wf(),
        ensures
            final(self).wf(),
            res == old(self)@.flushed().put_result(index),
            final(self)@ == old(self)@.flushed().put(index, value),
            res is Ok <==> old(self)@.flushed().accepts(index),
            res is Ok ==> final(self)@.lookup(index) == Some(value),
            res is Err ==> final(self)@ == old(self)@.flushed(),
            index.index >= old(self)@.allocator.next_slot ==> res == Err::<
                bool,
                InvalidGenerationError,
            >(InvalidGenerationError { index, current_generation: 0 }),
    {
        self.flush();
        let i = index.index as usize;
        if i >= self.buffer.len() {
            return Err(InvalidGenerationError { index, current_generation: 0 });
        }
        let ghost reconciled = self.buffer@;
        let current_generation = self.buffer[i].generation;
        if current_generation == index.generation {
            let exists = self.buffer[i].value.is_some();
            proof {
                lemma_occupied_update(
                    reconciled,
                    i as int,
                    Entry { value: Some(value), generation: index.generation },
                );
                lemma_occupied_bound(
                    reconciled.update(
                        i as int,
                        Entry { value: Some(value), generation: index.generation },
                    ),
                );
            }
            if !exists {
                self.len = self.len + 1;
            }
            self.buffer[i].value = Some(value);
            Ok(exists)
        } else {
            Err(InvalidGenerationError { index, current_generation })
        }
    }

    /// Removes the value that `index` reaches, after reconciling, and queues
    /// the handle for reuse if there was one.
    pub fn remove_recycle(&mut self, index: Index) -> (removed: Option<T>)
        requires
            old(self).wf(),
        ensures
            final(self).wf(),
            removed == old(self)@.flushed().lookup(index),
            final(self)@ == if removed is Some {
                old(self)@.flushed().cleared(index).recycled(index)
            } else {
                old(self)@.flushed()
            },
            final(self)@.lookup(index) is None,
    {
        let removed = self.remove(index);
        if removed.is_some() {
            self.index_allocator.recycle(index);
        } else {
            proof {
                let reconciled = old(self)@.flushed();
                assert(reconciled.cleared(index).slots =~= reconciled.slots);
            }
        }
        removed
    }

    /// Removes the value that `index` reaches, after reconciling.
    ///
    /// A stale handle, or one whose slot is not in the buffer, removes
    /// nothing. The handle is not queued for reuse.
    pub fn remove(&mut self, index: Index) -> (removed: Option<T>)
        requires
            old(self).wf(),
        ensures
            final(self).wf(),
            removed == old(self)@.flushed().lookup(index),
            final(self)@ == old(self)@.flushed().cleared(index),
            final(self)@.lookup(index) is None,
    {
        self.flush();
        let i = index.index as usize;
        if i < self.buffer.len() {
            let ghost reconciled = self.buffer@;
            if self.buffer[i].generation == index.generation {
                proof {
                    lemma_occupied_update(reconciled, i as int, vacant::<T>(index.generation));
                    if reconciled[i as int].value is Some {
                        lemma_occupied_positive(reconciled, i as int);
                    }
                }
                let removed = self.buffer[i].value.take();
                if removed.is_some() {
                    self.len = self.len - 1;
                }
                proof {
                    assert(self.buffer@ == reconciled.update(i as int, vacant::<T>(index.generation)));
                }
                removed
            } else {
                None
            }
        } else {
            None
        }
    }

    /// Gives read access to the allocator.
    pub fn index_allocator(&self) -> (allocator: &IndexAllocator)
        ensures
            allocator@ == self@.allocator,
    {
        &self.index_allocator
    }

    /// Returns the value that `index` reaches in the buffer as it stands.
    ///
    /// Reads do not reconcile. What the allocator has issued or reissued
    /// since the storage last reconciled is not in the buffer yet: a fresh
    /// handle reaches nothing, and a reissued slot still answers to the handle
    /// of its previous generation. Call [`DenseStorage::flush`] before reading
    /// where handles were reserved in between.
    pub fn get(&self, index: Index) -> (found: Option<&T>)
        ensures
            match found {
                Some(value) => self@.lookup(index) == Some(*value),
                None => self@.lookup(index) is None,
            },
    {
        let i = index.index as usize;
        if i < self.buffer.len() {
            let entry = &self.buffer[i];
            if entry.generation == index.generation {
                entry.value.as_ref()
            } else {
                None
            }
        } else {
            None
        }
    }

    /// Gives mutable access to the value that `index` reaches in the buffer
    /// as it stands. Like [`DenseStorage::get`], this does not reconcile.
    pub fn get_mut(&mut self, index: Index) -> (found: Option<&mut T>)
        ensures
            match found {
                Some(value) => {
                    &&& old(self)@.lookup(index) == Some(*value)
                    &&& final(self)@ == old(self)@.put(index, *final(value))
                },
                None => {
                    &&& old(self)@.lookup(index) is None
                    &&& final(self)@ == old(self)@
                },
            },
            final(self).counted() == old(self).counted(),
            old(self).wf() ==> final(self).wf(),
    {
        let i = index.index as usize;
        if i < self.buffer.len() && self.buffer[i].generation == index.generation
            && self.buffer[i].value.is_some() {
            proof {
                let before = self.buffer@;
                assert forall|entry: Entry<T>| entry.value is Some implies occupied(
                    #[trigger] before.update(i as int, entry),
                ) == occupied(before) by {
                    lemma_occupied_update(before, i as int, entry);
                }
            }
            let entry = &mut self.buffer[i];
            entry.value.as_mut()
        } else {
            None
        }
    }
}

} // verus!
