//! What holds of scopes: nothing made through a scope outlives it.

use vstd::prelude::*;
use crate::fake::driver::SyscallDriver;
use crate::fake::kernel::Kernel;
use crate::fake::laws::grant::{ro_region, rw_region};
use crate::fake::laws::queue::lemma_yield_wait_frame;
use crate::fake::scope::Handle;
use crate::fake::view::KernelView;
use crate::upcall::Sink;

verus! {

/// Whether revoking the handle would be accepted: the service, if it is
/// still there, takes grants in the slot, or has the subscription slot.
pub open spec fn handle_revocable<D: SyscallDriver>(
    kernel: KernelView<D::V>,
    handle: Handle,
) -> bool {
    match handle {
        Handle::AllowRo { driver_num, buffer_num } => kernel.has_driver(driver_num)
            ==> D::allow_readonly_spec(
                kernel.drivers[driver_num].driver,
                buffer_num,
                Seq::empty(),
            ) is Ok,
        Handle::AllowRw { driver_num, buffer_num } => kernel.has_driver(driver_num)
            ==> D::allow_readwrite_spec(
                kernel.drivers[driver_num].driver,
                buffer_num,
                Seq::empty(),
            ) is Ok,
        Handle::Subscribe { driver_num, subscribe_num } => kernel.has_driver(driver_num) ==>
            kernel.has_slot(
                driver_num,
                subscribe_num,
            ),
    }
}

/// Whether the slot of the handle is in use: a region that is not empty is
/// granted to it, or a holder is subscribed to it.
pub open spec fn handle_active<D: SyscallDriver>(kernel: KernelView<D::V>, handle: Handle) -> bool {
    match handle {
        Handle::AllowRo { driver_num, buffer_num } => ro_region::<D>(
            kernel,
            driver_num,
            buffer_num,
        ).len() > 0,
        Handle::AllowRw { driver_num, buffer_num } => rw_region::<D>(
            kernel,
            driver_num,
            buffer_num,
        ).len() > 0,
        Handle::Subscribe { driver_num, subscribe_num } => kernel.sink(
            driver_num,
            subscribe_num,
        ) is Some,
    }
}

/// Whether every handle of a scope is revocable.
pub open spec fn scope_revocable<D: SyscallDriver>(
    kernel: KernelView<D::V>,
    handles: Seq<Handle>,
) -> bool {
    forall|index: int|
        0 <= index < handles.len() ==> handle_revocable::<D>(kernel, #[trigger] handles[index])
}

/// Whether no slot of the scope is in use.
pub open spec fn scope_released<D: SyscallDriver>(
    kernel: KernelView<D::V>,
    handles: Seq<Handle>,
) -> bool {
    forall|index: int|
        0 <= index < handles.len() ==> !handle_active::<D>(kernel, #[trigger] handles[index])
}

/// Nothing outlives its scope: when a scope ends, no slot that a grant or a
/// subscription of the scope occupied is in use any more.
pub proof fn law_scope_exit_revokes<D: SyscallDriver>(
    kernel: KernelView<D::V>,
    handles: Seq<Handle>,
)
    requires
        scope_revocable::<D>(kernel, handles),
    ensures
        scope_released::<D>(Kernel::<D>::revoke_all_spec(kernel, handles), handles),
{
    assert forall|index: int| 0 <= index < handles.len() implies !handle_active::<D>(
        Kernel::<D>::revoke_all_spec(kernel, handles),
        #[trigger] handles[index],
    ) by {
        lemma_revoke_all_reaches::<D>(kernel, handles, handles[index]);
    }
}

/// Revoking a scope leaves the slot of `handle` not in use, where the scope
/// holds the handle or the slot was not in use before.
pub proof fn lemma_revoke_all_reaches<D: SyscallDriver>(
    kernel: KernelView<D::V>,
    handles: Seq<Handle>,
    handle: Handle,
)
    requires
        scope_revocable::<D>(kernel, handles),
        handles.contains(handle) || !handle_active::<D>(kernel, handle),
    ensures
        !handle_active::<D>(Kernel::<D>::revoke_all_spec(kernel, handles), handle),
    decreases handles.len(),
{
    if handles.len() > 0 {
        let youngest = handles.last();
        let after = Kernel::<D>::revoke_spec(kernel, youngest);
        let older = handles.drop_last();
        assert forall|index: int| 0 <= index < older.len() implies handle_revocable::<D>(
            after,
            #[trigger] older[index],
        ) by {
            assert(older[index] == handles[index]);
            lemma_revoke::<D>(kernel, youngest, older[index]);
        }
        lemma_revoke::<D>(kernel, youngest, handle);
        if handle != youngest && handles.contains(handle) {
            let position = choose|position: int|
                0 <= position < handles.len() && handles[position] == handle;
            assert(older[position] == handle);
        }
        lemma_revoke_all_reaches::<D>(after, older, handle);
    }
}

/// Revoking a handle keeps every handle revocable, keeps every slot that
/// is not in use so, and leaves the slot of a revocable handle not in use.
pub proof fn lemma_revoke<D: SyscallDriver>(
    kernel: KernelView<D::V>,
    revoked: Handle,
    other: Handle,
)
    ensures
        handle_revocable::<D>(kernel, other) ==> handle_revocable::<D>(
            Kernel::<D>::revoke_spec(kernel, revoked),
            other,
        ),
        !handle_active::<D>(kernel, other) ==> !handle_active::<D>(
            Kernel::<D>::revoke_spec(kernel, revoked),
            other,
        ),
        handle_revocable::<D>(kernel, revoked) ==> !handle_active::<D>(
            Kernel::<D>::revoke_spec(kernel, revoked),
            revoked,
        ),
{
    match revoked {
        Handle::AllowRo { driver_num, buffer_num } => {
            lemma_allow_ro_keeps_revocable::<D>(
                kernel,
                driver_num,
                buffer_num,
                Seq::empty(),
                other,
            );
            if kernel.has_driver(driver_num) {
                D::allow_readonly_law(kernel.drivers[driver_num].driver, buffer_num, Seq::empty());
            }
        },
        Handle::AllowRw { driver_num, buffer_num } => {
            lemma_allow_rw_keeps_revocable::<D>(
                kernel,
                driver_num,
                buffer_num,
                Seq::empty(),
                other,
            );
            if kernel.has_driver(driver_num) {
                D::allow_readwrite_law(kernel.drivers[driver_num].driver, buffer_num, Seq::empty());
            }
        },
        Handle::Subscribe { driver_num, subscribe_num } => {
            lemma_subscribe_keeps_revocable::<D>(kernel, driver_num, subscribe_num, None, other);
        },
    }
}

/// A scope stays revocable over a grant for reading, with the handle of
/// the grant where the grant is accepted.
pub proof fn lemma_scope_after_allow_ro<D: SyscallDriver>(
    kernel: KernelView<D::V>,
    handles: Seq<Handle>,
    driver_num: u32,
    buffer_num: u32,
    buffer: Seq<u8>,
)
    requires
        scope_revocable::<D>(kernel, handles),
    ensures
        scope_revocable::<D>(
            Kernel::<D>::allow_ro_spec(kernel, driver_num, buffer_num, buffer).0,
            handles,
        ),
        Kernel::<D>::allow_ro_spec(kernel, driver_num, buffer_num, buffer).1 is Ok ==>
            scope_revocable::<D>(
                Kernel::<D>::allow_ro_spec(kernel, driver_num, buffer_num, buffer).0,
                handles.push(Handle::AllowRo { driver_num, buffer_num }),
            ),
{
    let after = Kernel::<D>::allow_ro_spec(kernel, driver_num, buffer_num, buffer).0;
    let grant = Handle::AllowRo { driver_num, buffer_num };
    lemma_allow_ro_keeps_revocable::<D>(kernel, driver_num, buffer_num, buffer, grant);
    assert forall|index: int| 0 <= index < handles.len() implies handle_revocable::<D>(
        after,
        #[trigger] handles[index],
    ) by {
        lemma_allow_ro_keeps_revocable::<D>(kernel, driver_num, buffer_num, buffer, handles[index]);
    }
    if Kernel::<D>::allow_ro_spec(kernel, driver_num, buffer_num, buffer).1 is Ok {
        assert forall|index: int| 0 <= index < handles.push(grant).len() implies
            handle_revocable::<D>(
                after,
                #[trigger] handles.push(grant)[index],
            ) by {
            if index < handles.len() {
                assert(handles.push(grant)[index] == handles[index]);
            }
        }
    }
}

/// A scope stays revocable over a grant for reading and writing, with the
/// handle of the grant where the grant is accepted.
pub proof fn lemma_scope_after_allow_rw<D: SyscallDriver>(
    kernel: KernelView<D::V>,
    handles: Seq<Handle>,
    driver_num: u32,
    buffer_num: u32,
    buffer: Seq<u8>,
)
    requires
        scope_revocable::<D>(kernel, handles),
    ensures
        scope_revocable::<D>(
            Kernel::<D>::allow_rw_spec(kernel, driver_num, buffer_num, buffer).0,
            handles,
        ),
        Kernel::<D>::allow_rw_spec(kernel, driver_num, buffer_num, buffer).1 is Ok ==>
            scope_revocable::<D>(
                Kernel::<D>::allow_rw_spec(kernel, driver_num, buffer_num, buffer).0,
                handles.push(Handle::AllowRw { driver_num, buffer_num }),
            ),
{
    let after = Kernel::<D>::allow_rw_spec(kernel, driver_num, buffer_num, buffer).0;
    let grant = Handle::AllowRw { driver_num, buffer_num };
    lemma_allow_rw_keeps_revocable::<D>(kernel, driver_num, buffer_num, buffer, grant);
    assert forall|index: int| 0 <= index < handles.len() implies handle_revocable::<D>(
        after,
        #[trigger] handles[index],
    ) by {
        lemma_allow_rw_keeps_revocable::<D>(kernel, driver_num, buffer_num, buffer, handles[index]);
    }
    if Kernel::<D>::allow_rw_spec(kernel, driver_num, buffer_num, buffer).1 is Ok {
        assert forall|index: int| 0 <= index < handles.push(grant).len() implies
            handle_revocable::<D>(
                after,
                #[trigger] handles.push(grant)[index],
            ) by {
            if index < handles.len() {
                assert(handles.push(grant)[index] == handles[index]);
            }
        }
    }
}

/// A scope stays revocable over a subscription, with the handle of the
/// subscription where it is accepted.
pub proof fn lemma_scope_after_subscribe<D: SyscallDriver>(
    kernel: KernelView<D::V>,
    handles: Seq<Handle>,
    driver_num: u32,
    subscribe_num: u32,
    sink: Option<Sink>,
)
    requires
        scope_revocable::<D>(kernel, handles),
    ensures
        scope_revocable::<D>(kernel.subscribe_spec(driver_num, subscribe_num, sink).0, handles),
        kernel.subscribe_spec(driver_num, subscribe_num, sink).1 is Ok ==> scope_revocable::<D>(
            kernel.subscribe_spec(driver_num, subscribe_num, sink).0,
            handles.push(Handle::Subscribe { driver_num, subscribe_num }),
        ),
{
    let after = kernel.subscribe_spec(driver_num, subscribe_num, sink).0;
    let subscription = Handle::Subscribe { driver_num, subscribe_num };
    lemma_subscribe_keeps_revocable::<D>(kernel, driver_num, subscribe_num, sink, subscription);
    assert forall|index: int| 0 <= index < handles.len() implies handle_revocable::<D>(
        after,
        #[trigger] handles[index],
    ) by {
        lemma_subscribe_keeps_revocable::<D>(
            kernel,
            driver_num,
            subscribe_num,
            sink,
            handles[index],
        );
    }
    if kernel.subscribe_spec(driver_num, subscribe_num, sink).1 is Ok {
        assert forall|index: int| 0 <= index < handles.push(subscription).len() implies
            handle_revocable::<D>(
                after,
                #[trigger] handles.push(subscription)[index],
            ) by {
            if index < handles.len() {
                assert(handles.push(subscription)[index] == handles[index]);
            }
        }
    }
}

/// A scope stays revocable over a command.
pub proof fn lemma_scope_after_command<D: SyscallDriver>(
    kernel: KernelView<D::V>,
    handles: Seq<Handle>,
    driver_num: u32,
    command_num: u32,
    argument0: u32,
    argument1: u32,
)
    requires
        scope_revocable::<D>(kernel, handles),
    ensures
        scope_revocable::<D>(
            Kernel::<D>::command_spec(kernel, driver_num, command_num, argument0, argument1).0,
            handles,
        ),
{
    assert forall|index: int| 0 <= index < handles.len() implies handle_revocable::<D>(
        Kernel::<D>::command_spec(kernel, driver_num, command_num, argument0, argument1).0,
        #[trigger] handles[index],
    ) by {
        lemma_command_keeps_revocable::<D>(
            kernel,
            driver_num,
            command_num,
            argument0,
            argument1,
            handles[index],
        );
    }
}

/// A scope stays revocable while its owner waits for a slot, and when a
/// payload is taken out of a holder.
pub proof fn lemma_scope_after_wait<D: SyscallDriver>(
    kernel: KernelView<D::V>,
    handles: Seq<Handle>,
    driver_num: u32,
    subscribe_num: u32,
)
    requires
        scope_revocable::<D>(kernel, handles),
    ensures
        scope_revocable::<D>(kernel.wait_spec(driver_num, subscribe_num).0, handles),
        scope_revocable::<D>(kernel.take_delivered_spec(driver_num, subscribe_num), handles),
{
    assert forall|index: int| 0 <= index < handles.len() implies handle_revocable::<D>(
        kernel.wait_spec(driver_num, subscribe_num).0,
        #[trigger] handles[index],
    ) by {
        lemma_wait_keeps_revocable::<D>(kernel, driver_num, subscribe_num, handles[index]);
    }
    assert forall|index: int| 0 <= index < handles.len() implies handle_revocable::<D>(
        kernel.take_delivered_spec(driver_num, subscribe_num),
        #[trigger] handles[index],
    ) by {
        lemma_take_delivered_keeps_revocable::<D>(
            kernel,
            driver_num,
            subscribe_num,
            handles[index],
        );
    }
}

/// A grant for reading keeps every handle revocable, and the handle of an
/// accepted grant is revocable.
pub proof fn lemma_allow_ro_keeps_revocable<D: SyscallDriver>(
    kernel: KernelView<D::V>,
    driver_num: u32,
    buffer_num: u32,
    buffer: Seq<u8>,
    handle: Handle,
)
    ensures
        handle_revocable::<D>(kernel, handle) ==> handle_revocable::<D>(
            Kernel::<D>::allow_ro_spec(kernel, driver_num, buffer_num, buffer).0,
            handle,
        ),
        Kernel::<D>::allow_ro_spec(kernel, driver_num, buffer_num, buffer).1 is Ok ==>
            handle_revocable::<D>(
                Kernel::<D>::allow_ro_spec(kernel, driver_num, buffer_num, buffer).0,
                Handle::AllowRo { driver_num, buffer_num },
            ),
{
    if kernel.has_driver(driver_num) {
        D::allow_readonly_law(kernel.drivers[driver_num].driver, buffer_num, buffer);
    }
}

/// A grant for reading and writing keeps every handle revocable, and the
/// handle of an accepted grant is revocable.
pub proof fn lemma_allow_rw_keeps_revocable<D: SyscallDriver>(
    kernel: KernelView<D::V>,
    driver_num: u32,
    buffer_num: u32,
    buffer: Seq<u8>,
    handle: Handle,
)
    ensures
        handle_revocable::<D>(kernel, handle) ==> handle_revocable::<D>(
            Kernel::<D>::allow_rw_spec(kernel, driver_num, buffer_num, buffer).0,
            handle,
        ),
        Kernel::<D>::allow_rw_spec(kernel, driver_num, buffer_num, buffer).1 is Ok ==>
            handle_revocable::<D>(
                Kernel::<D>::allow_rw_spec(kernel, driver_num, buffer_num, buffer).0,
                Handle::AllowRw { driver_num, buffer_num },
            ),
{
    if kernel.has_driver(driver_num) {
        D::allow_readwrite_law(kernel.drivers[driver_num].driver, buffer_num, buffer);
    }
}

/// A subscription keeps every handle revocable, and the handle of an
/// accepted subscription is revocable.
pub proof fn lemma_subscribe_keeps_revocable<D: SyscallDriver>(
    kernel: KernelView<D::V>,
    driver_num: u32,
    subscribe_num: u32,
    sink: Option<Sink>,
    handle: Handle,
)
    ensures
        handle_revocable::<D>(kernel, handle) ==> handle_revocable::<D>(
            kernel.subscribe_spec(driver_num, subscribe_num, sink).0,
            handle,
        ),
        kernel.subscribe_spec(driver_num, subscribe_num, sink).1 is Ok ==> handle_revocable::<D>(
            kernel.subscribe_spec(driver_num, subscribe_num, sink).0,
            Handle::Subscribe { driver_num, subscribe_num },
        ),
{
}

/// A command keeps every handle revocable.
pub proof fn lemma_command_keeps_revocable<D: SyscallDriver>(
    kernel: KernelView<D::V>,
    driver_num: u32,
    command_num: u32,
    argument0: u32,
    argument1: u32,
    handle: Handle,
)
    requires
        handle_revocable::<D>(kernel, handle),
    ensures
        handle_revocable::<D>(
            Kernel::<D>::command_spec(kernel, driver_num, command_num, argument0, argument1).0,
            handle,
        ),
{
    if kernel.has_driver(driver_num) {
        D::command_law(kernel.drivers[driver_num].driver, command_num, argument0, argument1);
    }
}

/// A wait keeps every handle revocable.
pub proof fn lemma_yield_wait_keeps_revocable<D: SyscallDriver>(
    kernel: KernelView<D::V>,
    handle: Handle,
)
    requires
        handle_revocable::<D>(kernel, handle),
    ensures
        handle_revocable::<D>(kernel.yield_wait_spec().0, handle),
{
    lemma_yield_wait_frame(kernel);
    let after = kernel.yield_wait_spec().0;
    match handle {
        Handle::AllowRo { driver_num, buffer_num } => {
            assert(after.has_driver(driver_num) == kernel.has_driver(driver_num));
        },
        Handle::AllowRw { driver_num, buffer_num } => {
            assert(after.has_driver(driver_num) == kernel.has_driver(driver_num));
        },
        Handle::Subscribe { driver_num, subscribe_num } => {
            assert(after.has_driver(driver_num) == kernel.has_driver(driver_num));
        },
    }
}

/// Waiting for a slot keeps every handle revocable.
pub proof fn lemma_wait_keeps_revocable<D: SyscallDriver>(
    kernel: KernelView<D::V>,
    driver_num: u32,
    subscribe_num: u32,
    handle: Handle,
)
    requires
        handle_revocable::<D>(kernel, handle),
    ensures
        handle_revocable::<D>(kernel.wait_spec(driver_num, subscribe_num).0, handle),
    decreases kernel.queue.len(),
{
    let (after, delivered) = kernel.yield_wait_spec();
    lemma_yield_wait_keeps_revocable::<D>(kernel, handle);
    if delivered && !(after.delivered(driver_num, subscribe_num) is Some) {
        kernel.lemma_yield_wait_shrinks();
        lemma_wait_keeps_revocable::<D>(after, driver_num, subscribe_num, handle);
    }
}

/// Taking a payload out of a holder keeps every handle revocable.
pub proof fn lemma_take_delivered_keeps_revocable<D: SyscallDriver>(
    kernel: KernelView<D::V>,
    driver_num: u32,
    subscribe_num: u32,
    handle: Handle,
)
    requires
        handle_revocable::<D>(kernel, handle),
    ensures
        handle_revocable::<D>(kernel.take_delivered_spec(driver_num, subscribe_num), handle),
{
}

} // verus!
