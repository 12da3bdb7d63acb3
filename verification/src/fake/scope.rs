//! Scopes: the owners of grants and subscriptions.

use vstd::prelude::*;

verus! {

/// A grant or a subscription made inside a scope, by the slot it occupies.
#[derive(Clone, Copy, Debug, PartialEq, Eq, Structural)]
pub enum Handle {
    /// A read-only grant.
    AllowRo { driver_num: u32, buffer_num: u32 },
    /// A read-write grant.
    AllowRw { driver_num: u32, buffer_num: u32 },
    /// A subscription.
    Subscribe { driver_num: u32, subscribe_num: u32 },
}

/// The owner of the grants and subscriptions made through it. When the
/// scope ends, every one of them is revoked.
///
/// A scope is made by [`with_scope`](crate::fake::kernel::with_scope) only,
/// and ends there: no grant and no subscription can be made that would
/// outlive it.
pub struct Scope {
    handles: Vec<Handle>,
}

impl View for Scope {
    type V = Seq<Handle>;

    closed spec fn view(&self) -> Seq<Handle> {
        self.handles@
    }
}

impl Scope {
    /// A scope that owns nothing yet.
    pub(crate) fn new() -> (scope: Scope)
        ensures
            scope@ == Seq::<Handle>::empty(),
    {
        Scope { handles: Vec::new() }
    }

    /// Remembers a grant or a subscription made through the scope.
    pub(crate) fn record(&mut self, handle: Handle)
        ensures
            final(self)@ == old(self)@.push(handle),
    {
        self.handles.push(handle);
    }

    /// Ends the scope and hands out what it remembers, oldest first.
    pub(crate) fn into_handles(self) -> (handles: Vec<Handle>)
        ensures
            handles@ == self@,
    {
        self.handles
    }

    /// How many grants and subscriptions were made through the scope.
    pub fn len(&self) -> (len: usize)
        ensures
            len == self@.len(),
    {
        self.handles.len()
    }
}

} // verus!
