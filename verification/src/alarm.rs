//! The alarm: durations, their conversion to hardware ticks, and sleeping.

use vstd::prelude::*;
use crate::error_code::{ErrorCode, WaitError};
use crate::fake::driver::SyscallDriver;
use crate::fake::kernel::{with_scope, Kernel};
use crate::fake::laws::scope::{
    law_scope_exit_revokes, lemma_scope_after_command, lemma_scope_after_subscribe,
    lemma_scope_after_wait, scope_released, scope_revocable,
};
use crate::fake::scope::{Handle, Scope};
use crate::fake::view::KernelView;
use crate::upcall::Sink;

verus! {

/// The number the alarm service is addressed by.
pub const DRIVER_NUM: u32 = 0;

/// Command: is the alarm there?
pub const DRIVER_CHECK: u32 = 0;

/// Command: how many ticks does the alarm count per second?
pub const FREQUENCY: u32 = 1;

/// Command: notify after `argument0` ticks from now.
pub const SET_RELATIVE: u32 = 5;

/// The subscription slot that is notified when the alarm fires.
pub const CALLBACK: u32 = 0;

/// A frequency, in ticks per second.
#[derive(Clone, Copy, Debug, PartialEq, Eq, Structural)]
pub struct Hz(pub u32);

/// A duration, in ticks of the alarm's counter.
#[derive(Clone, Copy, Debug, PartialEq, Eq, Structural)]
pub struct Ticks(pub u32);

/// A duration, in milliseconds.
#[derive(Clone, Copy, Debug, PartialEq, Eq, Structural)]
pub struct Milliseconds(pub u32);

/// The product of two numbers, clamped to the largest 32-bit value.
pub open spec fn saturating_product(a: u32, b: u32) -> u32 {
    if a * b > u32::MAX {
        u32::MAX
    } else {
        (a * b) as u32
    }
}

/// The most ticks a duration in milliseconds can convert to.
pub const MAX_MILLISECOND_TICKS: u32 = 4_294_967;

/// A duration that can be expressed in ticks of a counter of known
/// frequency.
pub trait Convert: Sized {
    /// The duration in ticks at `freq`.
    spec fn ticks(self, freq: Hz) -> Ticks;

    /// Converts the duration to ticks at `freq`.
    fn to_ticks(self, freq: Hz) -> (ticks: Ticks)
        ensures
            ticks == self.ticks(freq),
    ;
}

impl Convert for Ticks {
    open spec fn ticks(self, freq: Hz) -> Ticks {
        self
    }

    fn to_ticks(self, _freq: Hz) -> (ticks: Ticks) {
        self
    }
}

impl Convert for Milliseconds {
    /// Milliseconds times ticks per second, over a thousand. The product
    /// saturates: a duration too long to represent becomes the longest one,
    /// it never wraps around.
    open spec fn ticks(self, freq: Hz) -> Ticks {
        Ticks(saturating_product(self.0, freq.0) / 1000)
    }

    fn to_ticks(self, freq: Hz) -> (ticks: Ticks) {
        match self.0.checked_mul(freq.0) {
            Some(product) => Ticks(product / 1000),
            None => Ticks(u32::MAX / 1000),
        }
    }
}

/// The conversion from milliseconds never exceeds the ceiling, reaches it
/// whenever the product saturates, and turns no time into no ticks.
pub proof fn law_milliseconds_saturate(duration: Milliseconds, freq: Hz)
    ensures
        duration.ticks(freq).0 <= MAX_MILLISECOND_TICKS,
        duration.0 * freq.0 >= u32::MAX ==> duration.ticks(freq).0 == MAX_MILLISECOND_TICKS,
        duration.0 * freq.0 <= u32::MAX ==> duration.ticks(freq).0 == (duration.0 * freq.0) / 1000,
        duration.0 == 0 ==> duration.ticks(freq).0 == 0,
{
    assert(duration.0 == 0 ==> duration.0 * freq.0 == 0) by (nonlinear_arith);
    assert(0 <= duration.0 * freq.0) by (nonlinear_arith);
}

/// The alarm.
pub struct Alarm;

/// The subscription that a sleep waits on.
pub open spec fn callback_subscription() -> Handle {
    Handle::Subscribe { driver_num: DRIVER_NUM, subscribe_num: CALLBACK }
}

/// What [`Alarm::sleep_for`] does once the frequency is known, before its
/// scope ends: it subscribes a fresh holder, sets the alarm `ticks` from
/// now, and waits for it to fire.
pub open spec fn sleep_in_scope_spec<D: SyscallDriver>(
    kernel: KernelView<D::V>,
    ticks: Ticks,
) -> (KernelView<D::V>, Seq<Handle>, Result<(), WaitError>) {
    let (subscribed, previous) = kernel.subscribe_spec(DRIVER_NUM, CALLBACK, Some(Sink::empty()));
    match previous {
        Err(code) => (subscribed, Seq::empty(), Err(WaitError::Failed(code))),
        Ok(_) => {
            let (commanded, returned) = Kernel::<D>::command_spec(
                subscribed,
                DRIVER_NUM,
                SET_RELATIVE,
                ticks.0,
                0,
            );
            match returned.u32_result() {
                Err(code) => (
                    commanded,
                    seq![callback_subscription()],
                    Err(WaitError::Failed(code)),
                ),
                Ok(_) => {
                    let (waited, payload) = commanded.wait_spec(DRIVER_NUM, CALLBACK);
                    (
                        waited,
                        seq![callback_subscription()],
                        if payload is Some {
                            Ok(())
                        } else {
                            Err(WaitError::Hung)
                        },
                    )
                },
            }
        },
    }
}

/// What [`Alarm::sleep_for`] does to the kernel, and its result: it asks
/// for the frequency, converts the duration, and sleeps inside a scope of
/// its own.
pub open spec fn sleep_for_spec<D: SyscallDriver, T: Convert>(
    kernel: KernelView<D::V>,
    time: T,
) -> (KernelView<D::V>, Result<(), WaitError>) {
    let (asked, returned) = Kernel::<D>::command_spec(kernel, DRIVER_NUM, FREQUENCY, 0, 0);
    match returned.u32_result() {
        Err(code) => (asked, Err(WaitError::Failed(code))),
        Ok(freq) => {
            let (inside, handles, result) = sleep_in_scope_spec::<D>(asked, time.ticks(Hz(freq)));
            (Kernel::<D>::revoke_all_spec(inside, handles), result)
        },
    }
}

/// The subscription that [`Alarm::sleep_for`] makes does not outlive it:
/// when the sleep returns, whatever its result and whatever services the
/// kernel hosts, the slot it occupied is not in use.
pub proof fn law_sleep_releases_its_scope<D: SyscallDriver>(kernel: KernelView<D::V>, ticks: Ticks)
    ensures
        scope_released::<D>(
            Kernel::<D>::revoke_all_spec(
                sleep_in_scope_spec::<D>(kernel, ticks).0,
                sleep_in_scope_spec::<D>(kernel, ticks).1,
            ),
            sleep_in_scope_spec::<D>(kernel, ticks).1,
        ),
{
    let (inside, handles, _) = sleep_in_scope_spec::<D>(kernel, ticks);
    assert(scope_revocable::<D>(inside, handles)) by {
        let none = Seq::<Handle>::empty();
        let sink = Some(Sink::empty());
        lemma_scope_after_subscribe::<D>(kernel, none, DRIVER_NUM, CALLBACK, sink);
        let (subscribed, previous) = kernel.subscribe_spec(DRIVER_NUM, CALLBACK, sink);
        if previous is Ok {
            let one = none.push(callback_subscription());
            assert(one =~= seq![callback_subscription()]);
            lemma_scope_after_command::<D>(subscribed, one, DRIVER_NUM, SET_RELATIVE, ticks.0, 0);
            let commanded = Kernel::<D>::command_spec(
                subscribed,
                DRIVER_NUM,
                SET_RELATIVE,
                ticks.0,
                0,
            ).0;
            lemma_scope_after_wait::<D>(commanded, one, DRIVER_NUM, CALLBACK);
        }
    }
    law_scope_exit_revokes::<D>(inside, handles);
}

impl Alarm {
    /// Asks the alarm whether it is there.
    ///
    /// Returns the number of concurrent notifications it supports, 0 if
    /// that is unbounded.
    pub fn driver_check<D: SyscallDriver>(
        kernel: &mut Kernel<D>,
    ) -> (result: Result<u32, ErrorCode>)
        requires
            old(kernel).wf(),
        ensures
            final(kernel).wf(),
            final(kernel)@ == Kernel::<D>::command_spec(
                old(kernel)@,
                DRIVER_NUM,
                DRIVER_CHECK,
                0,
                0,
            ).0,
            result == Kernel::<D>::command_spec(
                old(kernel)@,
                DRIVER_NUM,
                DRIVER_CHECK,
                0,
                0,
            ).1.u32_result(),
    {
        kernel.command(DRIVER_NUM, DRIVER_CHECK, 0, 0).to_result_u32()
    }

    /// Asks the alarm for the frequency of its counter.
    pub fn get_frequency<D: SyscallDriver>(
        kernel: &mut Kernel<D>,
    ) -> (result: Result<Hz, ErrorCode>)
        requires
            old(kernel).wf(),
        ensures
            final(kernel).wf(),
            final(kernel)@ == Kernel::<D>::command_spec(
                old(kernel)@,
                DRIVER_NUM,
                FREQUENCY,
                0,
                0,
            ).0,
            result == (match Kernel::<D>::command_spec(
                old(kernel)@,
                DRIVER_NUM,
                FREQUENCY,
                0,
                0,
            ).1.u32_result() {
                Ok(freq) => Ok(Hz(freq)),
                Err(code) => Err(code),
            }),
    {
        match kernel.command(DRIVER_NUM, FREQUENCY, 0, 0).to_result_u32() {
            Ok(freq) => Ok(Hz(freq)),
            Err(code) => Err(code),
        }
    }

    /// Sleeps for `time`: sets the alarm and waits until it fires. The
    /// subscription made on the way is revoked before it returns, whatever
    /// the result.
    pub fn sleep_for<D: SyscallDriver, T: Convert>(
        kernel: &mut Kernel<D>,
        time: T,
    ) -> (result: Result<(), WaitError>)
        requires
            old(kernel).wf(),
        ensures
            final(kernel).wf(),
            (final(kernel)@, result) == sleep_for_spec::<D, T>(old(kernel)@, time),
    {
        let freq = match Self::get_frequency(kernel) {
            Ok(freq) => freq,
            Err(code) => {
                return Err(WaitError::Failed(code));
            },
        };
        let ticks = time.to_ticks(freq);
        let body = |inner: &mut Kernel<D>, scope: &mut Scope| -> (result: Result<(), WaitError>)
            requires
                inner.wf(),
                scope@ == Seq::<Handle>::empty(),
            ensures
                final(inner).wf(),
                (final(inner)@, final(scope)@, result) == sleep_in_scope_spec::<D>(
                    old(inner)@,
                    ticks,
                ),
            {
                Self::sleep_in_scope(inner, scope, ticks)
            };
        with_scope(kernel, body)
    }

    fn sleep_in_scope<D: SyscallDriver>(
        kernel: &mut Kernel<D>,
        scope: &mut Scope,
        ticks: Ticks,
    ) -> (result: Result<(), WaitError>)
        requires
            old(kernel).wf(),
            old(scope)@ == Seq::<Handle>::empty(),
        ensures
            final(kernel).wf(),
            (final(kernel)@, final(scope)@, result) == sleep_in_scope_spec::<D>(
                old(kernel)@,
                ticks,
            ),
    {
        if let Err(code) = kernel.subscribe(scope, DRIVER_NUM, CALLBACK, Sink::new()) {
            return Err(WaitError::Failed(code));
        }
        assert(scope@ =~= seq![callback_subscription()]);
        if let Err(code) = kernel.command(DRIVER_NUM, SET_RELATIVE, ticks.0, 0).to_result_u32() {
            return Err(WaitError::Failed(code));
        }
        match kernel.wait_for(DRIVER_NUM, CALLBACK) {
            Some(_) => Ok(()),
            None => Err(WaitError::Hung),
        }
    }
}

} // verus!
