//! What holds of the allocator and the storage across several operations,
//! stated over their views.

use crate::allocator::{lemma_recycled_wf, lemma_reserved_wf, AllocatorView};
use crate::dense::{
    grown, lemma_occupied_update, occupied, stamped, vacant, Entry, InvalidGenerationError,
    StorageView,
};
use crate::handle::{bumped, Index};
use vstd::prelude::*;

verus! {

/// Stamping keeps the number of cells.
pub proof fn lemma_stamped_len<T>(slots: Seq<Entry<T>>, pending: Seq<Index>)
    ensures
        stamped(slots, pending).len() == slots.len(),
    decreases pending.len(),
{
    if pending.len() > 0 {
        lemma_stamped_len(slots, pending.drop_last());
    }
}

/// A slot that no pending handle names is left as it was.
pub proof fn lemma_stamped_untouched<T>(slots: Seq<Entry<T>>, pending: Seq<Index>, slot: int)
    requires
        0 <= slot < slots.len(),
        forall|k: int| 0 <= k < pending.len() ==> (#[trigger] pending[k]).index != slot,
    ensures
        stamped(slots, pending)[slot] == slots[slot],
    decreases pending.len(),
{
    if pending.len() > 0 {
        let earlier = pending.drop_last();
        assert forall|k: int| 0 <= k < earlier.len() implies (#[trigger] earlier[k]).index != slot by {
            assert(earlier[k] == pending[k]);
        }
        lemma_stamped_len(slots, earlier);
        lemma_stamped_untouched(slots, earlier, slot);
    }
}

/// A slot that some pending handle names is vacant and carries the
/// generation of the last pending handle that names it.
pub proof fn lemma_stamped_last<T>(slots: Seq<Entry<T>>, pending: Seq<Index>, slot: int, k: int)
    requires
        0 <= slot < slots.len(),
        0 <= k < pending.len(),
        pending[k].index == slot,
        forall|later: int| k < later < pending.len() ==> (#[trigger] pending[later]).index != slot,
    ensures
        stamped(slots, pending)[slot] == vacant::<T>(pending[k].generation),
    decreases pending.len(),
{
    let earlier = pending.drop_last();
    lemma_stamped_len(slots, earlier);
    if k < pending.len() - 1 {
        assert(earlier[k] == pending[k]);
        assert forall|later: int| k < later < earlier.len() implies (#[trigger] earlier[later]).index
            != slot by {
            assert(earlier[later] == pending[later]);
        }
        lemma_stamped_last(slots, earlier, slot, k);
    }
}

/// Reconciliation of a well-formed storage gives a well-formed storage whose
/// buffer has exactly one cell for each issued slot, with nothing pending.
pub proof fn lemma_flushed_covers<T>(s: StorageView<T>)
    requires
        s.wf(),
    ensures
        s.flushed().wf(),
        s.flushed().slots.len() == s.allocator.next_slot,
        s.flushed().allocator.pending.len() == 0,
{
    lemma_stamped_len(grown(s.slots, s.allocator.next_slot), s.allocator.pending);
}

/// A storage with nothing pending and a full buffer is left unchanged by
/// reconciliation.
pub proof fn lemma_flushed_twice<T>(s: StorageView<T>)
    requires
        s.wf(),
    ensures
        s.flushed().flushed() == s.flushed(),
{
    lemma_flushed_covers(s);
    assert(s.flushed().flushed().slots =~= s.flushed().slots);
}

/// With nothing queued for reuse, reservation number `k` (counting from 0)
/// issues the fresh slot `next_slot + k` with generation 0, and still
/// nothing is queued or changed among the pending handles.
pub proof fn lemma_fresh_reservation(a: AllocatorView, k: nat)
    requires
        a.wf(),
        a.queue.len() == 0,
        a.next_slot + k < u32::MAX,
    ensures
        a.reserved_times(k).wf(),
        a.within() ==> a.reserved_times(k).within(),
        a.reserved_times(k).can_reserve(),
        a.reserved_times(k) == (AllocatorView {
            next_slot: a.next_slot + k,
            queue: a.queue,
            pending: a.pending,
        }),
        a.reserved_times(k).next_handle() == (Index {
            index: (a.next_slot + k) as u32,
            generation: 0,
        }),
    decreases k,
{
    if k > 0 {
        lemma_fresh_reservation(a, (k - 1) as nat);
    }
}

/// With nothing queued for reuse, a later reservation issues a strictly
/// larger slot than an earlier one, and both issue generation 0.
pub proof fn lemma_fresh_slots_increase(a: AllocatorView, i: nat, j: nat)
    requires
        a.wf(),
        a.queue.len() == 0,
        i < j,
        a.next_slot + j < u32::MAX,
    ensures
        a.reserved_times(i).next_handle().index < a.reserved_times(j).next_handle().index,
        a.reserved_times(i).next_handle().generation == 0,
        a.reserved_times(j).next_handle().generation == 0,
{
    lemma_fresh_reservation(a, i);
    lemma_fresh_reservation(a, j);
}

/// Recycling a handle while nothing is queued and reserving again reissues
/// that handle's slot with its generation bumped: no fresh slot is issued,
/// the queue is empty again, and the reissued handle is the last one pending.
/// This holds of any handle, whether or not the allocator issued its slot.
pub proof fn lemma_recycle_then_reserve(a: AllocatorView, handle: Index)
    requires
        a.wf(),
        a.queue.len() == 0,
    ensures
        a.recycled(handle).can_reserve(),
        a.recycled(handle).next_handle() == (Index {
            index: handle.index,
            generation: bumped(handle.generation),
        }),
        a.recycled(handle).reserved() == (AllocatorView {
            next_slot: a.next_slot,
            queue: a.queue,
            pending: a.pending.push(a.recycled(handle).next_handle()),
        }),
        a.recycled(handle).reserved().wf(),
{
    assert(a.recycled(handle).queue.drop_first() =~= a.queue);
}

/// Freed handles are reissued in the order they were queued: a handle queued
/// behind `n` others is returned by reservation number `n`, with its slot
/// kept and its generation bumped. This holds of any handle; where the
/// allocator holds only handles of issued slots and the recycled one is
/// such a handle, it still holds only such handles.
pub proof fn lemma_recycled_fifo(a: AllocatorView, handle: Index)
    requires
        a.wf(),
    ensures
        a.recycled(handle).reserved_times(a.queue.len()).wf(),
        a.recycled(handle).reserved_times(a.queue.len()).can_reserve(),
        a.recycled(handle).reserved_times(a.queue.len()).next_handle() == (Index {
            index: handle.index,
            generation: bumped(handle.generation),
        }),
        a.within() && handle.index < a.next_slot ==> a.recycled(handle).reserved_times(
            a.queue.len(),
        ).within(),
{
    let recycled = a.recycled(handle);
    lemma_recycled_wf(a, handle);
    lemma_queue_drained(recycled, a.queue.len());
}

/// While handles are queued, each reservation takes the oldest one: after `n`
/// reservations the queue has lost its first `n` handles, no fresh slot was
/// issued, and the allocator is still well-formed. Where it held only
/// handles of issued slots, it still does.
pub proof fn lemma_queue_drained(a: AllocatorView, n: nat)
    requires
        a.wf(),
        n <= a.queue.len(),
    ensures
        a.reserved_times(n).wf(),
        a.reserved_times(n).queue == a.queue.skip(n as int),
        a.reserved_times(n).next_slot == a.next_slot,
        a.within() ==> a.reserved_times(n).within(),
    decreases n,
{
    if n > 0 {
        lemma_queue_drained(a, (n - 1) as nat);
        let earlier = a.reserved_times((n - 1) as nat);
        lemma_reserved_wf(earlier);
        assert(earlier.queue.drop_first() =~= a.queue.skip(n as int));
    } else {
        assert(a.queue.skip(0) =~= a.queue);
    }
}

/// A handle that was just reserved from the storage's allocator is accepted
/// by the storage once it has reconciled, and its slot is empty.
pub proof fn lemma_reserved_is_accepted<T>(s: StorageView<T>)
    requires
        s.wf(),
        s.allocator.can_reserve(),
    ensures
        s.reserved().wf(),
        s.reserved().flushed().accepts(s.allocator.next_handle()),
        s.reserved().flushed().lookup(s.allocator.next_handle()) is None,
        s.reserved().flushed().put_result(s.allocator.next_handle()) == Ok::<
            bool,
            InvalidGenerationError,
        >(false),
{
    let handle = s.allocator.next_handle();
    let after = s.reserved();
    let base = grown(after.slots, after.allocator.next_slot);
    lemma_reserved_wf(s.allocator);
    lemma_stamped_len(base, after.allocator.pending);
    if s.allocator.queue.len() > 0 {
        assert(after.allocator.pending.last() == handle);
        lemma_stamped_len(base, after.allocator.pending.drop_last());
    } else {
        lemma_stamped_untouched(base, after.allocator.pending, handle.index as int);
    }
}

/// A value written through an accepted handle is the value read through it.
pub proof fn lemma_insert_then_get<T>(s: StorageView<T>, handle: Index, value: T)
    requires
        s.flushed().put_result(handle) is Ok,
    ensures
        s.flushed().put(handle, value).lookup(handle) == Some(value),
{
}

/// A write through one handle leaves what every other slot holds.
pub proof fn lemma_insert_keeps_others<T>(s: StorageView<T>, handle: Index, value: T, other: Index)
    requires
        other.index != handle.index,
    ensures
        s.put(handle, value).lookup(other) == s.lookup(other),
{
}

/// After a removal through a handle, that handle reaches nothing.
pub proof fn lemma_remove_then_get<T>(s: StorageView<T>, handle: Index)
    ensures
        s.flushed().cleared(handle).lookup(handle) is None,
{
}

/// A removal alone does not retire the handle: the slot keeps its generation,
/// and a later write through the same handle is accepted into the empty slot.
pub proof fn lemma_remove_then_insert<T>(s: StorageView<T>, handle: Index)
    requires
        s.wf(),
        s.flushed().accepts(handle),
    ensures
        s.flushed().cleared(handle).flushed().put_result(handle) == Ok::<
            bool,
            InvalidGenerationError,
        >(false),
{
    lemma_flushed_covers(s);
    let cleared = s.flushed().cleared(handle);
    assert(cleared.wf());
    assert(cleared.flushed().slots =~= cleared.slots);
}

/// Once a handle has been recycled and the reservations before it in the
/// queue have been served, the next reservation reissues its slot with the
/// next generation. After that, a write through the old handle is refused
/// with the slot's new generation, and a value written through the reissued
/// handle is read through it while the old handle reaches nothing.
pub proof fn lemma_reissued_slot<T>(s: StorageView<T>, handle: Index, value: T)
    requires
        s.wf(),
        handle.index < s.allocator.next_slot,
        handle.generation < u32::MAX,
    ensures
        ({
            let queued = StorageView {
                slots: s.slots,
                allocator: s.allocator.recycled(handle).reserved_times(s.allocator.queue.len()),
            };
            let reissued = queued.allocator.next_handle();
            let after = queued.reserved().flushed();
            &&& reissued == (Index { index: handle.index, generation: (handle.generation + 1) as u32 })
            &&& after.put_result(handle) == Err::<bool, InvalidGenerationError>(
                InvalidGenerationError {
                    index: handle,
                    current_generation: (handle.generation + 1) as u32,
                },
            )
            &&& after.put(handle, value) == after
            &&& after.put_result(reissued) == Ok::<bool, InvalidGenerationError>(false)
            &&& after.put(reissued, value).lookup(reissued) == Some(value)
            &&& after.put(reissued, value).lookup(handle) is None
        }),
{
    let recycled = s.allocator.recycled(handle);
    lemma_recycled_wf(s.allocator, handle);
    lemma_queue_drained(recycled, s.allocator.queue.len());
    let queued = StorageView {
        slots: s.slots,
        allocator: recycled.reserved_times(s.allocator.queue.len()),
    };
    assert(queued.allocator.queue[0] == handle);
    let reissued = queued.allocator.next_handle();
    let before = queued.reserved();
    let base = grown(before.slots, before.allocator.next_slot);
    assert(before.allocator.pending.last() == reissued);
    lemma_stamped_len(base, before.allocator.pending.drop_last());
    lemma_stamped_len(base, before.allocator.pending);
}

/// A write into an empty slot raises the number of occupied cells by one; a
/// write over a value, or a refused write, leaves it.
pub proof fn lemma_put_count<T>(s: StorageView<T>, handle: Index, value: T)
    ensures
        occupied(s.put(handle, value).slots) == occupied(s.slots) + (if s.accepts(handle)
            && s.lookup(handle) is None {
            1nat
        } else {
            0nat
        }),
{
    if s.accepts(handle) {
        lemma_occupied_update(
            s.slots,
            handle.index as int,
            Entry { value: Some(value), generation: handle.generation },
        );
    }
}

/// A removal that finds a value lowers the number of occupied cells by one;
/// one that finds nothing leaves it.
pub proof fn lemma_cleared_count<T>(s: StorageView<T>, handle: Index)
    ensures
        occupied(s.cleared(handle).slots) + (if s.lookup(handle) is Some {
            1nat
        } else {
            0nat
        }) == occupied(s.slots),
{
    if s.accepts(handle) {
        lemma_occupied_update(s.slots, handle.index as int, vacant::<T>(handle.generation));
    }
}

} // verus!
