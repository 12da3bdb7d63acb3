//! The console, as a process uses it: writing bytes through a grant, a
//! command and a wait.

use vstd::prelude::*;
use vstd::slice::{slice_subrange, slice_to_vec};
use vstd::string::StringSliceAdditionalSpecFns;
use crate::allow::RoAllowBuffer;
use crate::error_code::WaitError;
use crate::fake::console::ConsoleView;
use crate::fake::driver::SyscallDriver;
use crate::fake::fault::{injected_result, CommandCall};
use crate::fake::kernel::{with_scope, Kernel};
use crate::fake::laws::queue::{law_wait_delivers_oldest, lemma_purge_leaves_none, lemma_wait_frame};
use crate::fake::laws::scope::{
    law_scope_exit_revokes, lemma_scope_after_allow_ro, lemma_scope_after_command,
    lemma_scope_after_subscribe, lemma_scope_after_wait, scope_released, scope_revocable,
};
use crate::fake::scope::{Handle, Scope};
use crate::fake::view::{purge, KernelView};
use crate::upcall::{Sink, Upcall};

verus! {

/// The number the console service is addressed by.
pub const DRIVER_NUM: u32 = 1;

/// Command: is the console there?
pub const DRIVER_CHECK: u32 = 0;

/// Command: write the first `argument0` bytes of the granted region.
pub const WRITE: u32 = 1;

/// The slot that takes the region to write from.
pub const ALLOW_WRITE: u32 = 1;

/// The subscription slot that is notified when a write is done, with the
/// number of bytes written.
pub const SUBSCRIBE_WRITE: u32 = 1;

/// The console.
pub struct Console;

/// The grant of the bytes to write.
pub open spec fn write_grant() -> Handle {
    Handle::AllowRo { driver_num: DRIVER_NUM, buffer_num: ALLOW_WRITE }
}

/// The subscription that a write waits on.
pub open spec fn write_subscription() -> Handle {
    Handle::Subscribe { driver_num: DRIVER_NUM, subscribe_num: SUBSCRIBE_WRITE }
}

/// A length as it is passed in a command argument.
pub open spec fn len_argument(len: nat) -> u32 {
    len as u32
}

/// What [`Console::write`] does before its scope ends: the kernel it
/// leaves, the grants and subscriptions it made, and its result.
///
/// It grants `bytes`, subscribes a fresh holder, commands the write, and
/// waits for the notification; the first of these that fails ends it.
pub open spec fn write_in_scope_spec<D: SyscallDriver>(
    kernel: KernelView<D::V>,
    bytes: Seq<u8>,
) -> (KernelView<D::V>, Seq<Handle>, Result<u32, WaitError>) {
    let (granted, allowed) = Kernel::<D>::allow_ro_spec(kernel, DRIVER_NUM, ALLOW_WRITE, bytes);
    match allowed {
        Err(code) => (granted, Seq::empty(), Err(WaitError::Failed(code))),
        Ok(_) => {
            let (subscribed, previous) = granted.subscribe_spec(
                DRIVER_NUM,
                SUBSCRIBE_WRITE,
                Some(Sink::empty()),
            );
            match previous {
                Err(code) => (subscribed, seq![write_grant()], Err(WaitError::Failed(code))),
                Ok(_) => {
                    let (commanded, returned) = Kernel::<D>::command_spec(
                        subscribed,
                        DRIVER_NUM,
                        WRITE,
                        len_argument(bytes.len()),
                        0,
                    );
                    match returned.unit_result() {
                        Err(code) => (
                            commanded,
                            seq![write_grant(), write_subscription()],
                            Err(WaitError::Failed(code)),
                        ),
                        Ok(_) => {
                            let (waited, payload) = commanded.wait_spec(
                                DRIVER_NUM,
                                SUBSCRIBE_WRITE,
                            );
                            (
                                waited,
                                seq![write_grant(), write_subscription()],
                                match payload {
                                    Some(args) => Ok(args.0),
                                    None => Err(WaitError::Hung),
                                },
                            )
                        },
                    }
                },
            }
        },
    }
}

/// What [`Console::write`] does to the kernel, and its result.
pub open spec fn write_spec<D: SyscallDriver>(
    kernel: KernelView<D::V>,
    bytes: Seq<u8>,
) -> (KernelView<D::V>, Result<u32, WaitError>) {
    let (inside, handles, result) = write_in_scope_spec::<D>(kernel, bytes);
    (Kernel::<D>::revoke_all_spec(inside, handles), result)
}

/// What writing the last `remaining` bytes of `bytes` does, chunk by chunk,
/// with the holder already subscribed.
///
/// Each round grants what is left, commands the write and waits. The count
/// that the service reports is authoritative: that many bytes are taken as
/// written, the rest is granted again. A service that reports none makes no
/// progress, which ends the write as hung.
pub open spec fn write_rest_spec<D: SyscallDriver>(
    kernel: KernelView<D::V>,
    handles: Seq<Handle>,
    bytes: Seq<u8>,
    remaining: nat,
) -> (KernelView<D::V>, Seq<Handle>, Result<(), WaitError>)
    decreases remaining,
{
    if remaining == 0 {
        (kernel, handles, Ok(()))
    } else {
        let (granted, allowed) = Kernel::<D>::allow_ro_spec(
            kernel,
            DRIVER_NUM,
            ALLOW_WRITE,
            bytes.subrange(bytes.len() - remaining, bytes.len() as int),
        );
        match allowed {
            Err(code) => (granted, handles, Err(WaitError::Failed(code))),
            Ok(_) => {
                let held = handles.push(write_grant());
                let (commanded, returned) = Kernel::<D>::command_spec(
                    granted,
                    DRIVER_NUM,
                    WRITE,
                    len_argument(remaining),
                    0,
                );
                match returned.unit_result() {
                    Err(code) => (commanded, held, Err(WaitError::Failed(code))),
                    Ok(_) => {
                        let (waited, payload) = commanded.wait_spec(DRIVER_NUM, SUBSCRIBE_WRITE);
                        match payload {
                            None => (waited, held, Err(WaitError::Hung)),
                            Some(args) => {
                                let cleared = waited.take_delivered_spec(
                                    DRIVER_NUM,
                                    SUBSCRIBE_WRITE,
                                );
                                if args.0 == 0 {
                                    (cleared, held, Err(WaitError::Hung))
                                } else if args.0 >= remaining {
                                    (cleared, held, Ok(()))
                                } else {
                                    write_rest_spec::<D>(
                                        cleared,
                                        held,
                                        bytes,
                                        (remaining - args.0) as nat,
                                    )
                                }
                            },
                        }
                    },
                }
            },
        }
    }
}

/// What [`Console::write_all`] does before its scope ends.
pub open spec fn write_all_in_scope_spec<D: SyscallDriver>(
    kernel: KernelView<D::V>,
    bytes: Seq<u8>,
) -> (KernelView<D::V>, Seq<Handle>, Result<(), WaitError>) {
    let (subscribed, previous) = kernel.subscribe_spec(
        DRIVER_NUM,
        SUBSCRIBE_WRITE,
        Some(Sink::empty()),
    );
    match previous {
        Err(code) => (subscribed, Seq::empty(), Err(WaitError::Failed(code))),
        Ok(_) => write_rest_spec::<D>(
            subscribed,
            seq![write_subscription()],
            bytes,
            bytes.len(),
        ),
    }
}

/// What [`Console::write_all`] does to the kernel, and its result.
pub open spec fn write_all_spec<D: SyscallDriver>(
    kernel: KernelView<D::V>,
    bytes: Seq<u8>,
) -> (KernelView<D::V>, Result<(), WaitError>) {
    let (inside, handles, result) = write_all_in_scope_spec::<D>(kernel, bytes);
    (Kernel::<D>::revoke_all_spec(inside, handles), result)
}

impl Console {
    /// Asks the console whether it is there.
    ///
    /// Returns `true` if the service is present. This does not mean that it
    /// works: a later grant may still be refused.
    pub fn driver_check<D: SyscallDriver>(kernel: &mut Kernel<D>) -> (present: bool)
        requires
            old(kernel).wf(),
        ensures
            final(kernel).wf(),
            final(kernel)@ == Kernel::<D>::command_spec(
                old(kernel)@,
                DRIVER_NUM,
                DRIVER_CHECK,
                0,
                0,
            ).0,
            present == !(Kernel::<D>::command_spec(
                old(kernel)@,
                DRIVER_NUM,
                DRIVER_CHECK,
                0,
                0,
            ).1 is Failure),
    {
        kernel.command(DRIVER_NUM, DRIVER_CHECK, 0, 0).is_success()
    }

    /// Writes bytes, and returns the count of bytes that the console
    /// reports as written. Every grant and subscription made on the way is
    /// revoked before it returns, whatever the result.
    pub fn write<D: SyscallDriver>(
        kernel: &mut Kernel<D>,
        s: &[u8],
    ) -> (result: Result<u32, WaitError>)
        requires
            old(kernel).wf(),
        ensures
            final(kernel).wf(),
            (final(kernel)@, result) == write_spec::<D>(old(kernel)@, s@),
    {
        let body = |inner: &mut Kernel<D>, scope: &mut Scope| -> (result: Result<u32, WaitError>)
            requires
                inner.wf(),
                scope@ == Seq::<Handle>::empty(),
            ensures
                final(inner).wf(),
                (final(inner)@, final(scope)@, result) == write_in_scope_spec::<D>(old(inner)@, s@),
            {
                Self::write_in_scope(inner, scope, s)
            };
        with_scope(kernel, body)
    }

    fn write_in_scope<D: SyscallDriver>(
        kernel: &mut Kernel<D>,
        scope: &mut Scope,
        s: &[u8],
    ) -> (result: Result<u32, WaitError>)
        requires
            old(kernel).wf(),
            old(scope)@ == Seq::<Handle>::empty(),
        ensures
            final(kernel).wf(),
            (final(kernel)@, final(scope)@, result) == write_in_scope_spec::<D>(old(kernel)@, s@),
    {
        let buffer = RoAllowBuffer::new(slice_to_vec(s));
        if let Err((_, code)) = kernel.allow_ro(scope, DRIVER_NUM, ALLOW_WRITE, buffer) {
            return Err(WaitError::Failed(code));
        }
        assert(scope@ =~= seq![write_grant()]);
        if let Err(code) = kernel.subscribe(scope, DRIVER_NUM, SUBSCRIBE_WRITE, Sink::new()) {
            return Err(WaitError::Failed(code));
        }
        assert(scope@ =~= seq![
            write_grant(),
            write_subscription(),
        ]);
        if let Err(code) = kernel.command(DRIVER_NUM, WRITE, s.len() as u32, 0).to_result() {
            return Err(WaitError::Failed(code));
        }
        match kernel.wait_for(DRIVER_NUM, SUBSCRIBE_WRITE) {
            Some(args) => Ok(args.0),
            None => Err(WaitError::Hung),
        }
    }

    /// Writes all bytes of a slice, in as many rounds as the console needs,
    /// with one subscription for all of them.
    pub fn write_all<D: SyscallDriver>(
        kernel: &mut Kernel<D>,
        s: &[u8],
    ) -> (result: Result<(), WaitError>)
        requires
            old(kernel).wf(),
        ensures
            final(kernel).wf(),
            (final(kernel)@, result) == write_all_spec::<D>(old(kernel)@, s@),
    {
        let body = |inner: &mut Kernel<D>, scope: &mut Scope| -> (result: Result<(), WaitError>)
            requires
                inner.wf(),
                scope@ == Seq::<Handle>::empty(),
            ensures
                final(inner).wf(),
                (final(inner)@, final(scope)@, result) == write_all_in_scope_spec::<D>(
                    old(inner)@,
                    s@,
                ),
            {
                Self::write_all_in_scope(inner, scope, s)
            };
        with_scope(kernel, body)
    }

    fn write_all_in_scope<D: SyscallDriver>(
        kernel: &mut Kernel<D>,
        scope: &mut Scope,
        s: &[u8],
    ) -> (result: Result<(), WaitError>)
        requires
            old(kernel).wf(),
            old(scope)@ == Seq::<Handle>::empty(),
        ensures
            final(kernel).wf(),
            (final(kernel)@, final(scope)@, result) == write_all_in_scope_spec::<D>(
                old(kernel)@,
                s@,
            ),
    {
        if let Err(code) = kernel.subscribe(scope, DRIVER_NUM, SUBSCRIBE_WRITE, Sink::new()) {
            return Err(WaitError::Failed(code));
        }
        assert(scope@ =~= seq![write_subscription()]);
        let mut remaining: usize = s.len();
        while remaining > 0
            invariant
                kernel.wf(),
                remaining <= s@.len(),
                write_rest_spec::<D>(kernel@, scope@, s@, remaining as nat)
                    == write_all_in_scope_spec::<D>(old(kernel)@, s@),
            decreases remaining,
        {
            let rest = slice_to_vec(slice_subrange(s, s.len() - remaining, s.len()));
            let rest = RoAllowBuffer::new(rest);
            if let Err((_, code)) = kernel.allow_ro(scope, DRIVER_NUM, ALLOW_WRITE, rest) {
                return Err(WaitError::Failed(code));
            }
            if let Err(code) = kernel.command(DRIVER_NUM, WRITE, remaining as u32, 0).to_result() {
                return Err(WaitError::Failed(code));
            }
            match kernel.wait_for(DRIVER_NUM, SUBSCRIBE_WRITE) {
                None => {
                    return Err(WaitError::Hung);
                },
                Some(args) => {
                    let _ = kernel.take_delivered(DRIVER_NUM, SUBSCRIBE_WRITE);
                    let count: u32 = args.0;
                    if count == 0 {
                        return Err(WaitError::Hung);
                    }
                    if count as usize >= remaining {
                        remaining = 0;
                    } else {
                        remaining = remaining - count as usize;
                    }
                },
            }
        }
        Ok(())
    }

    /// Writes a string: all of its bytes.
    pub fn write_str<D: SyscallDriver>(
        kernel: &mut Kernel<D>,
        s: &str,
    ) -> (result: Result<(), WaitError>)
        requires
            old(kernel).wf(),
        ensures
            final(kernel).wf(),
            (final(kernel)@, result) == write_all_spec::<D>(old(kernel)@, s.spec_bytes()),
    {
        Self::write_all(kernel, s.as_bytes())
    }
}

/// Nothing that [`Console::write`] grants or subscribes outlives it: when
/// it returns, whatever its result and whatever services the kernel hosts,
/// none of the slots it occupied is in use.
pub proof fn law_write_releases_its_scope<D: SyscallDriver>(
    kernel: KernelView<D::V>,
    bytes: Seq<u8>,
)
    ensures
        scope_released::<D>(
            write_spec::<D>(kernel, bytes).0,
            write_in_scope_spec::<D>(kernel, bytes).1,
        ),
{
    let (inside, handles, _) = write_in_scope_spec::<D>(kernel, bytes);
    assert(scope_revocable::<D>(inside, handles)) by {
        let none = Seq::<Handle>::empty();
        let sink = Some(Sink::empty());
        lemma_scope_after_allow_ro::<D>(kernel, none, DRIVER_NUM, ALLOW_WRITE, bytes);
        let (granted, allowed) = Kernel::<D>::allow_ro_spec(kernel, DRIVER_NUM, ALLOW_WRITE, bytes);
        if allowed is Ok {
            let one = none.push(write_grant());
            assert(one =~= seq![write_grant()]);
            lemma_scope_after_subscribe::<D>(granted, one, DRIVER_NUM, SUBSCRIBE_WRITE, sink);
            let (subscribed, previous) = granted.subscribe_spec(DRIVER_NUM, SUBSCRIBE_WRITE, sink);
            if previous is Ok {
                let two = one.push(
                    write_subscription(),
                );
                assert(two =~= seq![
                    write_grant(),
                    write_subscription(),
                ]);
                lemma_scope_after_command::<D>(
                    subscribed,
                    two,
                    DRIVER_NUM,
                    WRITE,
                    len_argument(bytes.len()),
                    0,
                );
                let commanded = Kernel::<D>::command_spec(
                    subscribed,
                    DRIVER_NUM,
                    WRITE,
                    len_argument(bytes.len()),
                    0,
                ).0;
                lemma_scope_after_wait::<D>(commanded, two, DRIVER_NUM, SUBSCRIBE_WRITE);
            }
        }
    }
    law_scope_exit_revokes::<D>(inside, handles);
}

/// The handles that a round of [`Console::write_all`] leaves are
/// revocable, where those it started with were.
proof fn lemma_write_rest_revocable<D: SyscallDriver>(
    kernel: KernelView<D::V>,
    handles: Seq<Handle>,
    bytes: Seq<u8>,
    remaining: nat,
)
    requires
        scope_revocable::<D>(kernel, handles),
    ensures
        scope_revocable::<D>(
            write_rest_spec::<D>(kernel, handles, bytes, remaining).0,
            write_rest_spec::<D>(kernel, handles, bytes, remaining).1,
        ),
    decreases remaining,
{
    if remaining > 0 {
        let rest = bytes.subrange(bytes.len() - remaining, bytes.len() as int);
        lemma_scope_after_allow_ro::<D>(kernel, handles, DRIVER_NUM, ALLOW_WRITE, rest);
        let (granted, allowed) = Kernel::<D>::allow_ro_spec(kernel, DRIVER_NUM, ALLOW_WRITE, rest);
        if allowed is Ok {
            let held = handles.push(write_grant());
            lemma_scope_after_command::<D>(
                granted,
                held,
                DRIVER_NUM,
                WRITE,
                len_argument(remaining),
                0,
            );
            let (commanded, returned) = Kernel::<D>::command_spec(
                granted,
                DRIVER_NUM,
                WRITE,
                len_argument(remaining),
                0,
            );
            if returned.unit_result() is Ok {
                lemma_scope_after_wait::<D>(commanded, held, DRIVER_NUM, SUBSCRIBE_WRITE);
                let (waited, payload) = commanded.wait_spec(DRIVER_NUM, SUBSCRIBE_WRITE);
                if let Some(args) = payload {
                    lemma_scope_after_wait::<D>(waited, held, DRIVER_NUM, SUBSCRIBE_WRITE);
                    let cleared = waited.take_delivered_spec(DRIVER_NUM, SUBSCRIBE_WRITE);
                    if args.0 != 0 && args.0 < remaining {
                        lemma_write_rest_revocable::<D>(
                            cleared,
                            held,
                            bytes,
                            (remaining - args.0) as nat,
                        );
                    }
                }
            }
        }
    }
}

/// Nothing that [`Console::write_all`] grants or subscribes outlives it:
/// when it returns, whatever its result and whatever services the kernel
/// hosts, none of the slots it occupied is in use.
pub proof fn law_write_all_releases_its_scope<D: SyscallDriver>(
    kernel: KernelView<D::V>,
    bytes: Seq<u8>,
)
    ensures
        scope_released::<D>(
            write_all_spec::<D>(kernel, bytes).0,
            write_all_in_scope_spec::<D>(kernel, bytes).1,
        ),
{
    let (inside, handles, _) = write_all_in_scope_spec::<D>(kernel, bytes);
    assert(scope_revocable::<D>(inside, handles)) by {
        let none = Seq::<Handle>::empty();
        let sink = Some(Sink::empty());
        lemma_scope_after_subscribe::<D>(kernel, none, DRIVER_NUM, SUBSCRIBE_WRITE, sink);
        let (subscribed, previous) = kernel.subscribe_spec(DRIVER_NUM, SUBSCRIBE_WRITE, sink);
        if previous is Ok {
            let one = none.push(write_subscription());
            assert(one =~= seq![
                write_subscription(),
            ]);
            lemma_write_rest_revocable::<D>(subscribed, one, bytes, bytes.len());
        }
    }
    law_scope_exit_revokes::<D>(inside, handles);
}

/// Writing to the simulated console is a round trip: what [`Console::write`]
/// is given is appended to the console's log, byte for byte, and the count
/// it returns is the length of what was given. When it returns, the console
/// holds no region any more and nothing is subscribed to the slot.
///
/// This holds whatever else is pending in the queue, as long as no fault is
/// injected for the write command.
pub proof fn law_write_round_trip(kernel: KernelView<ConsoleView>, bytes: Seq<u8>)
    requires
        kernel.has_driver(DRIVER_NUM),
        kernel.has_slot(DRIVER_NUM, SUBSCRIBE_WRITE),
        bytes.len() <= u32::MAX,
        injected_result(
            kernel.overrides,
            CommandCall {
                driver_num: DRIVER_NUM,
                command_num: WRITE,
                argument0: len_argument(bytes.len()),
                argument1: 0,
            },
        ) is None,
    ensures
        ({
            let (after, result) = write_spec::<crate::fake::console::Console>(kernel, bytes);
            &&& result == Ok::<u32, WaitError>(bytes.len() as u32)
            &&& after.has_driver(DRIVER_NUM)
            &&& after.drivers[DRIVER_NUM].driver == (ConsoleView {
                messages: kernel.drivers[DRIVER_NUM].driver.messages + bytes,
                buffer: Seq::empty(),
            })
            &&& after.sink(DRIVER_NUM, SUBSCRIBE_WRITE) is None
        }),
{
    let granted = Kernel::<crate::fake::console::Console>::allow_ro_spec(
        kernel,
        DRIVER_NUM,
        ALLOW_WRITE,
        bytes,
    ).0;
    let subscribed = granted.subscribe_spec(DRIVER_NUM, SUBSCRIBE_WRITE, Some(Sink::empty())).0;
    let commanded = Kernel::<crate::fake::console::Console>::command_spec(
        subscribed,
        DRIVER_NUM,
        WRITE,
        len_argument(bytes.len()),
        0,
    ).0;
    let upcall = Upcall {
        driver_num: DRIVER_NUM,
        subscribe_num: SUBSCRIBE_WRITE,
        args: (bytes.len() as u32, 0, 0),
    };
    let earlier = purge(kernel.queue, DRIVER_NUM, SUBSCRIBE_WRITE);
    lemma_purge_leaves_none(kernel.queue, DRIVER_NUM, SUBSCRIBE_WRITE);
    assert(bytes.take(bytes.len() as int) =~= bytes);
    assert(commanded.queue =~= earlier.push(upcall) + Seq::<Upcall>::empty());
    law_wait_delivers_oldest(commanded, DRIVER_NUM, SUBSCRIBE_WRITE, earlier, upcall, Seq::empty());
    lemma_wait_frame(commanded, DRIVER_NUM, SUBSCRIBE_WRITE);
    let waited = commanded.wait_spec(DRIVER_NUM, SUBSCRIBE_WRITE).0;
    assert(commanded.has_driver(DRIVER_NUM));
    assert(waited.has_driver(DRIVER_NUM));
    let handles = seq![write_grant(), write_subscription()];
    let unsubscribed = Kernel::<crate::fake::console::Console>::revoke_spec(
        waited,
        write_subscription(),
    );
    let revoked = Kernel::<crate::fake::console::Console>::revoke_spec(unsubscribed, write_grant());
    assert(handles.drop_last() =~= seq![write_grant()]);
    assert(handles.drop_last().drop_last() =~= Seq::<Handle>::empty());
    assert(Kernel::<crate::fake::console::Console>::revoke_all_spec(waited, handles) == revoked)
    by {
        reveal_with_fuel(Kernel::revoke_all_spec, 3);
    }
    assert(revoked.drivers[DRIVER_NUM].driver =~= (ConsoleView {
        messages: kernel.drivers[DRIVER_NUM].driver.messages + bytes,
        buffer: Seq::empty(),
    }));
}

} // verus!
