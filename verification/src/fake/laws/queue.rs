//! What holds of waiting and of the queue of pending notifications.

use vstd::prelude::*;
use crate::fake::view::{purge, KernelView};
use crate::upcall::{Sink, Upcall};

verus! {

/// Whether no pending notification is for the given subscription slot.
pub open spec fn none_pending_for(queue: Seq<Upcall>, driver_num: u32, subscribe_num: u32) -> bool {
    forall|index: int|
        0 <= index < queue.len() ==> !(#[trigger] queue[index]).is_for(driver_num, subscribe_num)
}

/// Index of the oldest pending notification for a slot, at or after
/// `start`; the length of the queue if there is none.
pub open spec fn oldest_pending_for(
    queue: Seq<Upcall>,
    driver_num: u32,
    subscribe_num: u32,
    start: int,
) -> int
    decreases queue.len() - start,
{
    if start < 0 || start >= queue.len() {
        queue.len() as int
    } else if queue[start].is_for(driver_num, subscribe_num) {
        start
    } else {
        oldest_pending_for(queue, driver_num, subscribe_num, start + 1)
    }
}

/// Index of the oldest pending notification, at or after `start`, whose
/// slot has a holder subscribed; the length of the queue if there is none.
pub open spec fn oldest_deliverable<V>(kernel: KernelView<V>, start: int) -> int
    decreases kernel.queue.len() - start,
{
    if start < 0 || start >= kernel.queue.len() {
        kernel.queue.len() as int
    } else if kernel.sink(kernel.queue[start].driver_num, kernel.queue[start].subscribe_num) is Some {
        start
    } else {
        oldest_deliverable(kernel, start + 1)
    }
}

/// The kernel after `count` waits in a row.
pub open spec fn after_waits<V>(kernel: KernelView<V>, count: nat) -> KernelView<V>
    decreases count,
{
    if count == 0 {
        kernel
    } else {
        after_waits(kernel.yield_wait_spec().0, (count - 1) as nat)
    }
}

/// A wait delivers exactly one notification, or none: the oldest pending
/// one whose slot has a holder is delivered to that holder, those before it
/// are dropped, and nothing else changes. Where no pending notification has
/// a holder, the queue is emptied and nothing is delivered.
pub proof fn law_yield_wait_delivers_one<V>(kernel: KernelView<V>)
    ensures
        ({
            let index = oldest_deliverable(kernel, 0);
            let (after, delivered) = kernel.yield_wait_spec();
            &&& 0 <= index <= kernel.queue.len()
            &&& delivered == (index < kernel.queue.len())
            &&& after.queue == kernel.queue.skip(if delivered {
                index + 1
            } else {
                index
            })
            &&& after.overrides == kernel.overrides
            &&& after.log == kernel.log
            &&& after.drivers == if delivered {
                kernel.with_sink(
                    kernel.queue[index].driver_num,
                    kernel.queue[index].subscribe_num,
                    Some(Sink { value: Some(kernel.queue[index].args) }),
                ).drivers
            } else {
                kernel.drivers
            }
        }),
    decreases kernel.queue.len(),
{
    if kernel.queue.len() == 0 {
        assert(kernel.queue.skip(0) =~= kernel.queue);
    } else {
        let first = kernel.queue.first();
        let rest = KernelView { queue: kernel.queue.drop_first(), ..kernel };
        if rest.sink(first.driver_num, first.subscribe_num) is Some {
            assert(kernel.queue.skip(1) =~= rest.queue);
        } else {
            law_yield_wait_delivers_one(rest);
            lemma_oldest_deliverable_shifts(kernel, 1);
            let index = oldest_deliverable(rest, 0);
            assert(kernel.queue.skip(index + 1) =~= rest.queue.skip(index));
            if index < rest.queue.len() {
                assert(kernel.queue.skip(index + 2) =~= rest.queue.skip(index + 1));
                assert(rest.queue[index] == kernel.queue[index + 1]);
            }
        }
    }
}

/// Dropping the first notification of the queue shifts the index of the
/// oldest deliverable one among the others.
proof fn lemma_oldest_deliverable_shifts<V>(kernel: KernelView<V>, start: int)
    requires
        1 <= start,
        kernel.queue.len() > 0,
    ensures
        oldest_deliverable(kernel, start) == oldest_deliverable(
            KernelView { queue: kernel.queue.drop_first(), ..kernel },
            start - 1,
        ) + 1,
    decreases kernel.queue.len() - start,
{
    let rest = KernelView { queue: kernel.queue.drop_first(), ..kernel };
    if start < kernel.queue.len() {
        assert(rest.queue[start - 1] == kernel.queue[start]);
        if !(kernel.sink(kernel.queue[start].driver_num, kernel.queue[start].subscribe_num) is Some) {
            lemma_oldest_deliverable_shifts(kernel, start + 1);
        }
    }
}

/// Waiting for a slot whose holder is empty ends with the payload of the
/// oldest notification pending for the slot, whatever is pending for other
/// slots; it ends with nothing exactly where nothing is pending for the
/// slot.
pub proof fn law_wait_returns_oldest_pending<V>(
    kernel: KernelView<V>,
    driver_num: u32,
    subscribe_num: u32,
)
    requires
        kernel.sink(driver_num, subscribe_num) == Some(Sink::empty()),
    ensures
        kernel.wait_spec(driver_num, subscribe_num).1 == ({
            let oldest = oldest_pending_for(kernel.queue, driver_num, subscribe_num, 0);
            if oldest < kernel.queue.len() {
                Some(kernel.queue[oldest].args)
            } else {
                None
            }
        }),
    decreases kernel.queue.len(),
{
    if kernel.queue.len() > 0 {
        let first = kernel.queue.first();
        let rest = KernelView { queue: kernel.queue.drop_first(), ..kernel };
        if !first.is_for(driver_num, subscribe_num) {
            lemma_oldest_pending_shifts(kernel.queue, driver_num, subscribe_num, 1);
            let oldest = oldest_pending_for(rest.queue, driver_num, subscribe_num, 0);
            if oldest < rest.queue.len() {
                assert(rest.queue[oldest] == kernel.queue[oldest + 1]);
            }
            if rest.sink(first.driver_num, first.subscribe_num) is Some {
                let after = rest.with_sink(
                    first.driver_num,
                    first.subscribe_num,
                    Some(Sink { value: Some(first.args) }),
                );
                assert(after.sink(driver_num, subscribe_num) == kernel.sink(
                    driver_num,
                    subscribe_num,
                ));
                kernel.lemma_yield_wait_shrinks();
                law_wait_returns_oldest_pending(after, driver_num, subscribe_num);
            } else {
                law_wait_returns_oldest_pending(rest, driver_num, subscribe_num);
            }
        }
    }
}

/// A caller that waits for a slot gets the oldest notification pending for
/// it, where the slot's holder is empty: the notifications queued before
/// it, for other slots, are delivered or dropped on the way.
pub proof fn law_wait_delivers_oldest<V>(
    kernel: KernelView<V>,
    driver_num: u32,
    subscribe_num: u32,
    earlier: Seq<Upcall>,
    upcall: Upcall,
    later: Seq<Upcall>,
)
    requires
        kernel.queue == earlier.push(upcall) + later,
        none_pending_for(earlier, driver_num, subscribe_num),
        upcall.is_for(driver_num, subscribe_num),
        kernel.sink(driver_num, subscribe_num) == Some(Sink::empty()),
    ensures
        kernel.wait_spec(driver_num, subscribe_num).1 == Some(upcall.args),
        kernel.wait_spec(driver_num, subscribe_num).0.queue == later,
        kernel.wait_spec(driver_num, subscribe_num).0.sink(driver_num, subscribe_num) == Some(
            Sink { value: Some(upcall.args) },
        ),
    decreases earlier.len(),
{
    let first = kernel.queue.first();
    let rest = KernelView { queue: kernel.queue.drop_first(), ..kernel };
    if earlier.len() == 0 {
        assert(first == upcall);
        assert(rest.queue =~= later);
    } else {
        assert(first == earlier[0]);
        assert(!first.is_for(driver_num, subscribe_num));
        let shorter = earlier.drop_first();
        assert(rest.queue =~= shorter.push(upcall) + later);
        assert forall|index: int| 0 <= index < shorter.len() implies
            !(#[trigger] shorter[index]).is_for(
                driver_num,
                subscribe_num,
            ) by {
            assert(shorter[index] == earlier[index + 1]);
        }
        if rest.sink(first.driver_num, first.subscribe_num) is Some {
            let after = rest.with_sink(
                first.driver_num,
                first.subscribe_num,
                Some(Sink { value: Some(first.args) }),
            );
            assert(after.sink(driver_num, subscribe_num) == kernel.sink(driver_num, subscribe_num));
            kernel.lemma_yield_wait_shrinks();
            law_wait_delivers_oldest(after, driver_num, subscribe_num, shorter, upcall, later);
        } else {
            law_wait_delivers_oldest(rest, driver_num, subscribe_num, shorter, upcall, later);
        }
    }
}

/// A notification enqueued before a subscription is replaced or revoked is
/// never delivered afterwards: however often the process waits, the slot
/// holds what was subscribed to it, with nothing delivered to it.
pub proof fn law_stale_upcalls_are_dropped<V>(
    kernel: KernelView<V>,
    driver_num: u32,
    subscribe_num: u32,
    sink: Option<Sink>,
    waits: nat,
)
    requires
        kernel.has_slot(driver_num, subscribe_num),
    ensures
        after_waits(kernel.subscribe_spec(driver_num, subscribe_num, sink).0, waits).sink(
            driver_num,
            subscribe_num,
        ) == sink,
{
    let replaced = kernel.subscribe_spec(driver_num, subscribe_num, sink).0;
    lemma_purge_leaves_none(kernel.queue, driver_num, subscribe_num);
    lemma_waits_spare_slot(replaced, driver_num, subscribe_num, waits);
}

/// Purging a slot leaves nothing pending for it.
pub proof fn lemma_purge_leaves_none(queue: Seq<Upcall>, driver_num: u32, subscribe_num: u32)
    ensures
        none_pending_for(purge(queue, driver_num, subscribe_num), driver_num, subscribe_num),
    decreases queue.len(),
{
    if queue.len() > 0 {
        lemma_purge_leaves_none(queue.drop_last(), driver_num, subscribe_num);
    }
}

/// A wait touches only the queue and the holders: the services, the faults
/// and the log stay as they are, and no slot appears or disappears.
pub proof fn lemma_yield_wait_frame<V>(kernel: KernelView<V>)
    ensures
        kernel.yield_wait_spec().0.overrides == kernel.overrides,
        kernel.yield_wait_spec().0.log == kernel.log,
        kernel.yield_wait_spec().0.drivers.dom() == kernel.drivers.dom(),
        forall|driver_num: u32| #[trigger]
            kernel.has_driver(driver_num) ==> {
                &&& kernel.yield_wait_spec().0.drivers[driver_num].driver
                    == kernel.drivers[driver_num].driver
                &&& kernel.yield_wait_spec().0.drivers[driver_num].upcalls.len()
                    == kernel.drivers[driver_num].upcalls.len()
            },
    decreases kernel.queue.len(),
{
    if kernel.queue.len() > 0 {
        let upcall = kernel.queue.first();
        let rest = KernelView { queue: kernel.queue.drop_first(), ..kernel };
        if rest.sink(upcall.driver_num, upcall.subscribe_num) is Some {
            let after = rest.with_sink(
                upcall.driver_num,
                upcall.subscribe_num,
                Some(Sink { value: Some(upcall.args) }),
            );
            assert(after.drivers.dom() =~= kernel.drivers.dom());
        } else {
            lemma_yield_wait_frame(rest);
            assert forall|driver_num: u32| #[trigger] kernel.has_driver(driver_num) implies {
                &&& kernel.yield_wait_spec().0.drivers[driver_num].driver
                    == kernel.drivers[driver_num].driver
                &&& kernel.yield_wait_spec().0.drivers[driver_num].upcalls.len()
                    == kernel.drivers[driver_num].upcalls.len()
            } by {
                assert(rest.has_driver(driver_num));
            }
        }
    }
}

/// Waiting for a slot touches only the queue and the holders, as a single
/// wait does.
pub proof fn lemma_wait_frame<V>(kernel: KernelView<V>, driver_num: u32, subscribe_num: u32)
    ensures
        kernel.wait_spec(driver_num, subscribe_num).0.overrides == kernel.overrides,
        kernel.wait_spec(driver_num, subscribe_num).0.log == kernel.log,
        kernel.wait_spec(driver_num, subscribe_num).0.drivers.dom() == kernel.drivers.dom(),
        forall|other: u32| #[trigger]
            kernel.has_driver(other) ==> {
                &&& kernel.wait_spec(driver_num, subscribe_num).0.drivers[other].driver
                    == kernel.drivers[other].driver
                &&& kernel.wait_spec(driver_num, subscribe_num).0.drivers[other].upcalls.len()
                    == kernel.drivers[other].upcalls.len()
            },
    decreases kernel.queue.len(),
{
    let (after, delivered) = kernel.yield_wait_spec();
    lemma_yield_wait_frame(kernel);
    if delivered && !(after.delivered(driver_num, subscribe_num) is Some) {
        kernel.lemma_yield_wait_shrinks();
        lemma_wait_frame(after, driver_num, subscribe_num);
        assert forall|other: u32| #[trigger] kernel.has_driver(other) implies {
            &&& kernel.wait_spec(driver_num, subscribe_num).0.drivers[other].driver
                == kernel.drivers[other].driver
            &&& kernel.wait_spec(driver_num, subscribe_num).0.drivers[other].upcalls.len()
                == kernel.drivers[other].upcalls.len()
        } by {
            assert(after.has_driver(other));
        }
    }
}

/// A wait leaves a slot's holder alone while nothing is pending for the
/// slot, and nothing becomes pending for it.
pub proof fn lemma_yield_wait_spares_slot<V>(
    kernel: KernelView<V>,
    driver_num: u32,
    subscribe_num: u32,
)
    requires
        none_pending_for(kernel.queue, driver_num, subscribe_num),
    ensures
        kernel.yield_wait_spec().0.sink(driver_num, subscribe_num) == kernel.sink(
            driver_num,
            subscribe_num,
        ),
        none_pending_for(kernel.yield_wait_spec().0.queue, driver_num, subscribe_num),
    decreases kernel.queue.len(),
{
    if kernel.queue.len() > 0 {
        let upcall = kernel.queue.first();
        let rest = KernelView { queue: kernel.queue.drop_first(), ..kernel };
        assert(!upcall.is_for(driver_num, subscribe_num));
        assert forall|index: int| 0 <= index < rest.queue.len() implies
            !(#[trigger] rest.queue[index]).is_for(
                driver_num,
                subscribe_num,
            ) by {
            assert(rest.queue[index] == kernel.queue[index + 1]);
        }
        if !(rest.sink(upcall.driver_num, upcall.subscribe_num) is Some) {
            lemma_yield_wait_spares_slot(rest, driver_num, subscribe_num);
        }
    }
}

/// Any number of waits leaves a slot's holder alone while nothing is
/// pending for the slot.
pub proof fn lemma_waits_spare_slot<V>(
    kernel: KernelView<V>,
    driver_num: u32,
    subscribe_num: u32,
    waits: nat,
)
    requires
        none_pending_for(kernel.queue, driver_num, subscribe_num),
    ensures
        after_waits(kernel, waits).sink(driver_num, subscribe_num) == kernel.sink(
            driver_num,
            subscribe_num,
        ),
    decreases waits,
{
    if waits > 0 {
        lemma_yield_wait_spares_slot(kernel, driver_num, subscribe_num);
        lemma_waits_spare_slot(
            kernel.yield_wait_spec().0,
            driver_num,
            subscribe_num,
            (waits - 1) as nat,
        );
    }
}

/// Dropping the first notification of a queue shifts the index of the
/// oldest one pending for a slot among the others.
proof fn lemma_oldest_pending_shifts(
    queue: Seq<Upcall>,
    driver_num: u32,
    subscribe_num: u32,
    start: int,
)
    requires
        1 <= start,
        queue.len() > 0,
    ensures
        oldest_pending_for(queue, driver_num, subscribe_num, start) == oldest_pending_for(
            queue.drop_first(),
            driver_num,
            subscribe_num,
            start - 1,
        ) + 1,
        start <= queue.len() ==> start <= oldest_pending_for(
            queue,
            driver_num,
            subscribe_num,
            start,
        ) <= queue.len(),
    decreases queue.len() - start,
{
    if start < queue.len() {
        assert(queue.drop_first()[start - 1] == queue[start]);
        if !queue[start].is_for(driver_num, subscribe_num) {
            lemma_oldest_pending_shifts(queue, driver_num, subscribe_num, start + 1);
        }
    }
}

} // verus!
