//! Notifications from a service, and the holder they are delivered to.

use vstd::prelude::*;

verus! {

/// The three payload words of a notification.
pub type UpcallArgs = (u32, u32, u32);

/// A notification as it waits in the queue: where it comes from and what it
/// carries.
#[derive(Clone, Copy, Debug, PartialEq, Eq)]
pub struct Upcall {
    pub driver_num: u32,
    pub subscribe_num: u32,
    pub args: UpcallArgs,
}

impl Upcall {
    /// Whether the notification is for the given subscription slot.
    pub open spec fn is_for(self, driver_num: u32, subscribe_num: u32) -> bool {
        self.driver_num == driver_num && self.subscribe_num == subscribe_num
    }
}

/// A single-slot holder for delivered notifications: it remembers the
/// payload delivered last, until the caller takes it out.
#[derive(Clone, Copy, Debug, PartialEq, Eq)]
pub struct Sink {
    pub value: Option<UpcallArgs>,
}

impl Sink {
    /// The holder with nothing delivered.
    pub open spec fn empty() -> Sink {
        Sink { value: None }
    }

    /// A holder with nothing delivered.
    pub fn new() -> (sink: Sink)
        ensures
            sink == Sink::empty(),
    {
        Sink { value: None }
    }

    /// Delivers a notification: the holder now remembers these words.
    pub fn receive(&mut self, word0: u32, word1: u32, word2: u32)
        ensures
            final(self).value == Some((word0, word1, word2)),
    {
        self.value = Some((word0, word1, word2));
    }

    /// The payload delivered last, if any.
    pub fn get(&self) -> (value: Option<UpcallArgs>)
        ensures
            value == self.value,
    {
        self.value
    }

    /// Takes the payload out, leaving the holder empty.
    pub fn take(&mut self) -> (value: Option<UpcallArgs>)
        ensures
            value == old(self).value,
            final(self).value is None,
    {
        let value = self.value;
        self.value = None;
        value
    }
}

} // verus!
