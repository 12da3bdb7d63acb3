//! The simulated kernel as a specification sees it, and what the
//! primitives that do not involve a service do to it.

use vstd::prelude::*;
use crate::error_code::ErrorCode;
use crate::fake::fault::{CommandCall, CommandOverride};
use crate::upcall::{Sink, Upcall, UpcallArgs};

verus! {

/// The queue without the notifications for one subscription slot; the
/// others keep their order.
pub open spec fn purge(queue: Seq<Upcall>, driver_num: u32, subscribe_num: u32) -> Seq<Upcall>
    decreases queue.len(),
{
    if queue.len() == 0 {
        Seq::empty()
    } else if queue.last().is_for(driver_num, subscribe_num) {
        purge(queue.drop_last(), driver_num, subscribe_num)
    } else {
        purge(queue.drop_last(), driver_num, subscribe_num).push(queue.last())
    }
}

/// A registered service as a specification sees it: the service's own state
/// and the holder subscribed to each of its slots.
#[verifier::ext_equal]
pub struct DriverView<V> {
    pub driver: V,
    pub upcalls: Seq<Option<Sink>>,
}

/// The kernel as a specification sees it.
#[verifier::ext_equal]
pub struct KernelView<V> {
    /// The registry: each registered service under its number.
    pub drivers: Map<u32, DriverView<V>>,
    /// Pending notifications, oldest first.
    pub queue: Seq<Upcall>,
    /// Injected faults, in the order of registration.
    pub overrides: Seq<CommandOverride>,
    /// Every command issued so far, oldest first.
    pub log: Seq<CommandCall>,
}

impl<V> KernelView<V> {
    /// Whether a service is registered under `driver_num`.
    pub open spec fn has_driver(self, driver_num: u32) -> bool {
        self.drivers.contains_key(driver_num)
    }

    /// Whether `subscribe_num` is a subscription slot of a registered
    /// service.
    pub open spec fn has_slot(self, driver_num: u32, subscribe_num: u32) -> bool {
        self.has_driver(driver_num) && subscribe_num < self.drivers[driver_num].upcalls.len()
    }

    /// The holder subscribed to a slot; `None` where the slot does not exist
    /// or nothing is subscribed.
    pub open spec fn sink(self, driver_num: u32, subscribe_num: u32) -> Option<Sink> {
        if self.has_slot(driver_num, subscribe_num) {
            self.drivers[driver_num].upcalls[subscribe_num as int]
        } else {
            None
        }
    }

    /// The kernel with `sink` in an existing slot.
    pub open spec fn with_sink(
        self,
        driver_num: u32,
        subscribe_num: u32,
        sink: Option<Sink>,
    ) -> Self {
        KernelView {
            drivers: self.drivers.insert(
                driver_num,
                DriverView {
                    upcalls: self.drivers[driver_num].upcalls.update(subscribe_num as int, sink),
                    ..self.drivers[driver_num]
                },
            ),
            ..self
        }
    }

    /// The payload the holder subscribed to a slot remembers, if any.
    pub open spec fn delivered(self, driver_num: u32, subscribe_num: u32) -> Option<UpcallArgs> {
        match self.sink(driver_num, subscribe_num) {
            Some(sink) => sink.value,
            None => None,
        }
    }

    /// What subscribing `sink` to a slot does and returns; `None` revokes
    /// the subscription.
    ///
    /// It fails with [`ErrorCode::NoSupport`] where no service is
    /// registered under `driver_num`, and with [`ErrorCode::Invalid`] where
    /// the service has no such slot. Else the holder subscribed before comes
    /// back, and the notifications still pending for the slot are dropped:
    /// they were meant for that holder.
    pub open spec fn subscribe_spec(
        self,
        driver_num: u32,
        subscribe_num: u32,
        sink: Option<Sink>,
    ) -> (Self, Result<Option<Sink>, ErrorCode>) {
        if !self.has_driver(driver_num) {
            (self, Err(ErrorCode::NoSupport))
        } else if !self.has_slot(driver_num, subscribe_num) {
            (self, Err(ErrorCode::Invalid))
        } else {
            (
                KernelView {
                    queue: purge(self.queue, driver_num, subscribe_num),
                    ..self.with_sink(driver_num, subscribe_num, sink)
                },
                Ok(self.sink(driver_num, subscribe_num)),
            )
        }
    }

    /// What one wait for a notification does, and whether it delivered one.
    ///
    /// Pending notifications are taken oldest first. One whose slot has no
    /// holder subscribed is dropped; the first one whose slot has a holder
    /// is delivered to it, and the wait ends. Where the queue runs empty
    /// nothing is delivered: a process on a real kernel would stay
    /// suspended.
    pub open spec fn yield_wait_spec(self) -> (Self, bool)
        decreases self.queue.len(),
    {
        if self.queue.len() == 0 {
            (self, false)
        } else {
            let upcall = self.queue.first();
            let rest = KernelView { queue: self.queue.drop_first(), ..self };
            if rest.sink(upcall.driver_num, upcall.subscribe_num) is Some {
                (
                    rest.with_sink(
                        upcall.driver_num,
                        upcall.subscribe_num,
                        Some(Sink { value: Some(upcall.args) }),
                    ),
                    true,
                )
            } else {
                rest.yield_wait_spec()
            }
        }
    }

    /// The kernel after the payload that a slot's holder remembers is taken
    /// out of it.
    pub open spec fn take_delivered_spec(self, driver_num: u32, subscribe_num: u32) -> Self {
        if self.sink(driver_num, subscribe_num) is Some {
            self.with_sink(driver_num, subscribe_num, Some(Sink::empty()))
        } else {
            self
        }
    }

    /// A wait never makes the queue longer, and one that delivers makes it
    /// shorter.
    pub proof fn lemma_yield_wait_shrinks(self)
        ensures
            self.yield_wait_spec().0.queue.len() <= self.queue.len(),
            self.yield_wait_spec().1 ==> self.yield_wait_spec().0.queue.len() < self.queue.len(),
        decreases self.queue.len(),
    {
        if self.queue.len() > 0 {
            let upcall = self.queue.first();
            let rest = KernelView { queue: self.queue.drop_first(), ..self };
            if !(rest.sink(upcall.driver_num, upcall.subscribe_num) is Some) {
                rest.lemma_yield_wait_shrinks();
            }
        }
    }

    /// What waiting for a slot's notification does, and the payload it ends
    /// with: the caller waits, then looks at what the slot's holder
    /// remembers, and waits again while that is nothing. `None` means that
    /// the queue ran empty first.
    pub open spec fn wait_spec(
        self,
        driver_num: u32,
        subscribe_num: u32,
    ) -> (Self, Option<UpcallArgs>)
        decreases self.queue.len(),
    {
        let (after, delivered) = self.yield_wait_spec();
        if !delivered {
            (after, None)
        } else if after.delivered(driver_num, subscribe_num) is Some {
            (after, after.delivered(driver_num, subscribe_num))
        } else {
            proof {
                self.lemma_yield_wait_shrinks();
            }
            after.wait_spec(driver_num, subscribe_num)
        }
    }

    /// Waiting for a slot never makes the queue longer, and makes it
    /// shorter where it ends with a payload.
    pub proof fn lemma_wait_shrinks(self, driver_num: u32, subscribe_num: u32)
        ensures
            self.wait_spec(driver_num, subscribe_num).0.queue.len() <= self.queue.len(),
            self.wait_spec(driver_num, subscribe_num).1 is Some ==> self.wait_spec(
                driver_num,
                subscribe_num,
            ).0.queue.len() < self.queue.len(),
        decreases self.queue.len(),
    {
        let (after, delivered) = self.yield_wait_spec();
        self.lemma_yield_wait_shrinks();
        if delivered && !(after.delivered(driver_num, subscribe_num) is Some) {
            after.lemma_wait_shrinks(driver_num, subscribe_num);
        }
    }

    /// The kernel with the state of a registered service replaced.
    pub open spec fn with_driver(self, driver_num: u32, driver: V) -> Self {
        KernelView {
            drivers: self.drivers.insert(
                driver_num,
                DriverView { driver, ..self.drivers[driver_num] },
            ),
            ..self
        }
    }
}

} // verus!
