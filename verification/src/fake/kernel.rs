//! The simulated kernel: a registry of services, the subscriptions of the
//! process, the queue of pending notifications, and fault injection.

use vstd::prelude::*;
use crate::allow::{RoAllowBuffer, RwAllowBuffer};
use crate::command_return::CommandReturn;
use crate::error_code::ErrorCode;
use crate::fake::driver::SyscallDriver;
use crate::fake::fault::{
    injected_result, overrides_after, take_override, CommandCall, CommandOverride,
};
use crate::fake::scope::{Handle, Scope};
use crate::fake::view::{purge, DriverView, KernelView};
use crate::upcall::{Sink, Upcall, UpcallArgs};

verus! {

struct DriverData<D> {
    id: u32,
    driver: D,
    upcalls: Vec<Option<Sink>>,
}

/// The simulated kernel, hosting services of type `D`.
pub struct Kernel<D: SyscallDriver> {
    drivers: Vec<DriverData<D>>,
    upcall_queue: Vec<Upcall>,
    overrides: Vec<CommandOverride>,
    command_log: Vec<CommandCall>,
}

impl<D: SyscallDriver> View for Kernel<D> {
    type V = KernelView<D::V>;

    closed spec fn view(&self) -> KernelView<D::V> {
        KernelView {
            drivers: Map::new(
                |id: u32| self.registered(id),
                |id: u32|
                    DriverView {
                        driver: self.drivers@[self.index_of(id)].driver@,
                        upcalls: self.drivers@[self.index_of(id)].upcalls@,
                    },
            ),
            queue: self.upcall_queue@,
            overrides: self.overrides@,
            log: self.command_log@,
        }
    }
}

impl<D: SyscallDriver> Kernel<D> {
    spec fn registered(&self, id: u32) -> bool {
        exists|index: int|
            0 <= index < self.drivers@.len() && #[trigger] self.drivers@[index].id == id
    }

    spec fn index_of(&self, id: u32) -> int {
        choose|index: int|
            0 <= index < self.drivers@.len() && #[trigger] self.drivers@[index].id == id
    }

    /// The kernel's invariant: no two services are registered under one
    /// number.
    pub closed spec fn wf(&self) -> bool {
        forall|i: int, j: int|
            0 <= i < j < self.drivers@.len() ==>
                #[trigger] self.drivers@[i].id != #[trigger] self.drivers@[j].id
    }

    proof fn lemma_index_of(&self, index: int)
        requires
            self.wf(),
            0 <= index < self.drivers@.len(),
        ensures
            self.registered(self.drivers@[index].id),
            self.index_of(self.drivers@[index].id) == index,
    {
        let id = self.drivers@[index].id;
        let chosen = self.index_of(id);
        assert(0 <= chosen < self.drivers@.len() && self.drivers@[chosen].id == id);
        if chosen < index {
            assert(self.drivers@[chosen].id != self.drivers@[index].id);
        }
        if index < chosen {
            assert(self.drivers@[index].id != self.drivers@[chosen].id);
        }
    }

    /// What a command does to the kernel and what it returns.
    ///
    /// The call is logged. Where a service is registered under `driver_num`
    /// it handles the command, and what it enqueues joins the queue; else the
    /// command fails with [`ErrorCode::NoSupport`]. Where an injected fault
    /// applies, the caller gets its result in place of that.
    pub open spec fn command_spec(
        kernel: KernelView<D::V>,
        driver_num: u32,
        command_num: u32,
        argument0: u32,
        argument1: u32,
    ) -> (KernelView<D::V>, CommandReturn) {
        let call = CommandCall { driver_num, command_num, argument0, argument1 };
        let logged = KernelView {
            overrides: overrides_after(kernel.overrides, call),
            log: kernel.log.push(call),
            ..kernel
        };
        let injected = injected_result(kernel.overrides, call);
        if kernel.has_driver(driver_num) {
            let effect = D::command_spec(
                kernel.drivers[driver_num].driver,
                command_num,
                argument0,
                argument1,
            );
            (
                KernelView { queue: kernel.queue + effect.upcalls, ..logged }.with_driver(
                    driver_num,
                    effect.next,
                ),
                match injected {
                    Some(result) => result,
                    None => effect.result,
                },
            )
        } else {
            (
                logged,
                match injected {
                    Some(result) => result,
                    None => CommandReturn::Failure(ErrorCode::NoSupport),
                },
            )
        }
    }

    /// What a read-only grant does to the kernel, and the region that comes
    /// back: the one the slot held before.
    ///
    /// It fails with [`ErrorCode::NoSupport`] where no service is
    /// registered under `driver_num`, and with the service's error where the
    /// service refuses the slot; the kernel is then unchanged.
    pub open spec fn allow_ro_spec(
        kernel: KernelView<D::V>,
        driver_num: u32,
        buffer_num: u32,
        buffer: Seq<u8>,
    ) -> (KernelView<D::V>, Result<Seq<u8>, ErrorCode>) {
        if !kernel.has_driver(driver_num) {
            (kernel, Err(ErrorCode::NoSupport))
        } else {
            match D::allow_readonly_spec(kernel.drivers[driver_num].driver, buffer_num, buffer) {
                Ok(next) => (
                    kernel.with_driver(driver_num, next),
                    Ok(D::ro_buffer(kernel.drivers[driver_num].driver, buffer_num)),
                ),
                Err(code) => (kernel, Err(code)),
            }
        }
    }

    /// What a read-write grant does to the kernel, and the region that
    /// comes back: the one the slot held before.
    ///
    /// It fails as a read-only grant does.
    pub open spec fn allow_rw_spec(
        kernel: KernelView<D::V>,
        driver_num: u32,
        buffer_num: u32,
        buffer: Seq<u8>,
    ) -> (KernelView<D::V>, Result<Seq<u8>, ErrorCode>) {
        if !kernel.has_driver(driver_num) {
            (kernel, Err(ErrorCode::NoSupport))
        } else {
            match D::allow_readwrite_spec(kernel.drivers[driver_num].driver, buffer_num, buffer) {
                Ok(next) => (
                    kernel.with_driver(driver_num, next),
                    Ok(D::rw_buffer(kernel.drivers[driver_num].driver, buffer_num)),
                ),
                Err(code) => (kernel, Err(code)),
            }
        }
    }

    /// The kernel after one grant or subscription is revoked: the empty
    /// region is granted to the slot, or nothing is subscribed to it.
    pub open spec fn revoke_spec(kernel: KernelView<D::V>, handle: Handle) -> KernelView<D::V> {
        match handle {
            Handle::AllowRo { driver_num, buffer_num } => Self::allow_ro_spec(
                kernel,
                driver_num,
                buffer_num,
                Seq::empty(),
            ).0,
            Handle::AllowRw { driver_num, buffer_num } => Self::allow_rw_spec(
                kernel,
                driver_num,
                buffer_num,
                Seq::empty(),
            ).0,
            Handle::Subscribe { driver_num, subscribe_num } => kernel.subscribe_spec(
                driver_num,
                subscribe_num,
                None,
            ).0,
        }
    }

    /// The kernel after every handle of a scope is revoked, the youngest
    /// first.
    pub open spec fn revoke_all_spec(
        kernel: KernelView<D::V>,
        handles: Seq<Handle>,
    ) -> KernelView<D::V>
        decreases handles.len(),
    {
        if handles.len() == 0 {
            kernel
        } else {
            Self::revoke_all_spec(Self::revoke_spec(kernel, handles.last()), handles.drop_last())
        }
    }

    /// A kernel with no service, no pending notification and no fault.
    pub fn new() -> (kernel: Kernel<D>)
        ensures
            kernel.wf(),
            kernel@ == (KernelView::<D::V> {
                drivers: Map::empty(),
                queue: Seq::empty(),
                overrides: Seq::empty(),
                log: Seq::empty(),
            }),
    {
        let kernel = Kernel {
            drivers: Vec::new(),
            upcall_queue: Vec::new(),
            overrides: Vec::new(),
            command_log: Vec::new(),
        };
        assert(kernel@.drivers =~= Map::empty());
        kernel
    }

    fn find(&self, driver_num: u32) -> (found: Option<usize>)
        requires
            self.wf(),
        ensures
            match found {
                Some(index) => {
                    &&& index < self.drivers@.len()
                    &&& self.drivers@[index as int].id == driver_num
                    &&& self.registered(driver_num)
                    &&& self.index_of(driver_num) == index
                },
                None => !self.registered(driver_num),
            },
    {
        let mut index: usize = 0;
        while index < self.drivers.len()
            invariant
                self.wf(),
                index <= self.drivers@.len(),
                forall|k: int| 0 <= k < index ==> (#[trigger] self.drivers@[k]).id != driver_num,
            decreases self.drivers@.len() - index,
        {
            if self.drivers[index].id == driver_num {
                proof {
                    self.lemma_index_of(index as int);
                }
                return Some(index);
            }
            index += 1;
        }
        None
    }

    proof fn lemma_registered_same_ids(&self, other: &Self)
        requires
            self.drivers@.len() == other.drivers@.len(),
            forall|k: int|
                0 <= k < self.drivers@.len() ==>
                    (#[trigger] self.drivers@[k]).id == other.drivers@[k].id,
            self.wf(),
        ensures
            other.wf(),
            forall|id: u32| self.registered(id) == other.registered(id),
            forall|id: u32| self.registered(id) ==> self.index_of(id) == other.index_of(id),
    {
        assert forall|i: int, j: int| 0 <= i < j < other.drivers@.len() implies
            #[trigger] other.drivers@[i].id
            != #[trigger] other.drivers@[j].id by {
            assert(self.drivers@[i].id != self.drivers@[j].id);
        }
        assert forall|id: u32| self.registered(id) == other.registered(id) by {
            if self.registered(id) {
                let k = self.index_of(id);
                assert(other.drivers@[k].id == id);
            }
            if other.registered(id) {
                let k = other.index_of(id);
                assert(self.drivers@[k].id == id);
            }
        }
        assert forall|id: u32| self.registered(id) implies
            self.index_of(id) == other.index_of(id)
        by {
            let k = self.index_of(id);
            assert(other.drivers@[k].id == id);
            other.lemma_index_of(k);
        }
    }

    /// Replacing what is stored for one service changes the view at that
    /// service's number only.
    proof fn lemma_update(&self, after: &Self, index: int)
        requires
            self.wf(),
            0 <= index < self.drivers@.len(),
            after.drivers@.len() == self.drivers@.len(),
            forall|k: int|
                0 <= k < self.drivers@.len() && k != index ==>
                    #[trigger] after.drivers@[k] == self.drivers@[k],
            after.drivers@[index].id == self.drivers@[index].id,
        ensures
            after.wf(),
            self@.has_driver(self.drivers@[index].id),
            self@.drivers[self.drivers@[index].id] == (DriverView {
                driver: self.drivers@[index].driver@,
                upcalls: self.drivers@[index].upcalls@,
            }),
            after@.drivers == self@.drivers.insert(
                self.drivers@[index].id,
                DriverView {
                    driver: after.drivers@[index].driver@,
                    upcalls: after.drivers@[index].upcalls@,
                },
            ),
    {
        self.lemma_registered_same_ids(after);
        self.lemma_index_of(index);
        let id = self.drivers@[index].id;
        let expected = self@.drivers.insert(
            id,
            DriverView {
                driver: after.drivers@[index].driver@,
                upcalls: after.drivers@[index].upcalls@,
            },
        );
        assert forall|key: u32| #[trigger] expected.contains_key(key) implies
            after@.drivers[key] == expected[key]
        by {
            if key != id {
                let k = self.index_of(key);
                assert(k != index);
            }
        }
        assert(after@.drivers =~= expected);
    }

    /// Registers a service under the number it reports.
    ///
    /// Registering two services under one number is a defect of the test
    /// that sets the kernel up, so the number must still be free.
    pub fn add_driver(&mut self, driver: D)
        requires
            old(self).wf(),
            !old(self)@.has_driver(D::driver_num(driver@)),
        ensures
            final(self).wf(),
            final(self)@ == (KernelView {
                drivers: old(self)@.drivers.insert(
                    D::driver_num(driver@),
                    DriverView {
                        driver: driver@,
                        upcalls: Seq::new(
                            D::upcall_count(driver@) as nat,
                            |slot: int| None::<Sink>,
                        ),
                    },
                ),
                ..old(self)@
            }),
    {
        let id: u32 = driver.id();
        let count: u32 = driver.num_upcalls();
        let mut upcalls: Vec<Option<Sink>> = Vec::new();
        let mut slot: u32 = 0;
        while slot < count
            invariant
                slot <= count,
                upcalls@ == Seq::new(slot as nat, |slot: int| None::<Sink>),
            decreases count - slot,
        {
            upcalls.push(None);
            slot += 1;
            assert(upcalls@ =~= Seq::new(slot as nat, |slot: int| None::<Sink>));
        }
        let ghost before = *self;
        self.drivers.push(DriverData { id, driver, upcalls });
        proof {
            let last = before.drivers@.len() as int;
            assert forall|i: int, j: int| 0 <= i < j < self.drivers@.len() implies
                #[trigger] self.drivers@[i].id
                != #[trigger] self.drivers@[j].id by {
                if j == last {
                    assert(before.drivers@[i].id == self.drivers@[i].id);
                    assert(!before.registered(id));
                } else {
                    assert(before.drivers@[i].id == self.drivers@[i].id);
                    assert(before.drivers@[j].id == self.drivers@[j].id);
                }
            }
            self.lemma_index_of(last);
            let expected = before@.drivers.insert(
                id,
                DriverView { driver: driver@, upcalls: upcalls@ },
            );
            assert forall|key: u32| #[trigger] expected.contains_key(key) implies
                self@.drivers.contains_key(key)
                && self@.drivers[key] == expected[key] by {
                if key != id {
                    let k = before.index_of(key);
                    assert(self.drivers@[k].id == key);
                    self.lemma_index_of(k);
                }
            }
            assert forall|key: u32| #[trigger] self@.drivers.contains_key(key) implies
                expected.contains_key(key)
            by {
                let k = self.index_of(key);
                if k != last {
                    assert(before.drivers@[k].id == key);
                }
            }
            assert(self@.drivers =~= expected);
        }
    }

    /// Issues a command to the service registered under `driver_num`.
    pub fn command(
        &mut self,
        driver_num: u32,
        command_num: u32,
        argument0: u32,
        argument1: u32,
    ) -> (result: CommandReturn)
        requires
            old(self).wf(),
        ensures
            final(self).wf(),
            (final(self)@, result) == Self::command_spec(
                old(self)@,
                driver_num,
                command_num,
                argument0,
                argument1,
            ),
    {
        let call = CommandCall { driver_num, command_num, argument0, argument1 };
        let ghost before = *self;
        self.command_log.push(call);
        let injected = take_override(&mut self.overrides, &call);
        let found = self.find(driver_num);
        let answer = match found {
            Some(index) => {
                let ghost logged = *self;
                let result = self.drivers[index].driver.command(
                    command_num,
                    argument0,
                    argument1,
                    &mut self.upcall_queue,
                );
                proof {
                    logged.lemma_update(&*self, index as int);
                }
                result
            },
            None => CommandReturn::Failure(ErrorCode::NoSupport),
        };
        proof {
            assert(before@.has_driver(driver_num) == found.is_some());
            assert(self@ =~= Self::command_spec(
                before@,
                driver_num,
                command_num,
                argument0,
                argument1,
            ).0);
        }
        match injected {
            Some(result) => result,
            None => answer,
        }
    }

    /// Grants `buffer` to a service for reading, as part of `scope`.
    ///
    /// On success the region the slot held before comes back, and the scope
    /// remembers the grant. On failure `buffer` comes back with the error.
    pub fn allow_ro(
        &mut self,
        scope: &mut Scope,
        driver_num: u32,
        buffer_num: u32,
        buffer: RoAllowBuffer,
    ) -> (result: Result<RoAllowBuffer, (RoAllowBuffer, ErrorCode)>)
        requires
            old(self).wf(),
        ensures
            final(self).wf(),
            final(self)@ == Self::allow_ro_spec(old(self)@, driver_num, buffer_num, buffer@).0,
            match Self::allow_ro_spec(old(self)@, driver_num, buffer_num, buffer@).1 {
                Ok(held) => {
                    &&& result matches Ok(previous)
                    &&& previous@ == held
                    &&& final(scope)@ == old(scope)@.push(Handle::AllowRo {
                        driver_num,
                        buffer_num,
                    })
                },
                Err(code) => {
                    &&& result matches Err((returned, error))
                    &&& returned@ == buffer@
                    &&& error == code
                    &&& final(scope)@ == old(scope)@
                },
            },
    {
        let result = self.swap_ro(driver_num, buffer_num, buffer);
        if result.is_ok() {
            scope.record(Handle::AllowRo { driver_num, buffer_num });
        }
        result
    }

    /// Takes back the region granted for reading to a slot: the slot holds
    /// the empty region afterwards.
    pub fn unallow_ro(
        &mut self,
        driver_num: u32,
        buffer_num: u32,
    ) -> (result: Result<RoAllowBuffer, ErrorCode>)
        requires
            old(self).wf(),
        ensures
            final(self).wf(),
            final(self)@ == Self::allow_ro_spec(old(self)@, driver_num, buffer_num, Seq::empty()).0,
            match Self::allow_ro_spec(old(self)@, driver_num, buffer_num, Seq::empty()).1 {
                Ok(held) => result matches Ok(previous) && previous@ == held,
                Err(code) => result == Err::<RoAllowBuffer, ErrorCode>(code),
            },
    {
        match self.swap_ro(driver_num, buffer_num, RoAllowBuffer::default()) {
            Ok(previous) => Ok(previous),
            Err((_, code)) => Err(code),
        }
    }

    fn swap_ro(
        &mut self,
        driver_num: u32,
        buffer_num: u32,
        buffer: RoAllowBuffer,
    ) -> (result: Result<RoAllowBuffer, (RoAllowBuffer, ErrorCode)>)
        requires
            old(self).wf(),
        ensures
            final(self).wf(),
            final(self)@ == Self::allow_ro_spec(old(self)@, driver_num, buffer_num, buffer@).0,
            match Self::allow_ro_spec(old(self)@, driver_num, buffer_num, buffer@).1 {
                Ok(held) => result matches Ok(previous) && previous@ == held,
                Err(code) => result matches Err((
                    returned,
                    error,
                )) && returned@ == buffer@ && error == code,
            },
    {
        match self.find(driver_num) {
            Some(index) => {
                let ghost before = *self;
                let result = self.drivers[index].driver.allow_readonly(buffer_num, buffer);
                proof {
                    before.lemma_update(&*self, index as int);
                    assert(self@ =~= Self::allow_ro_spec(
                        before@,
                        driver_num,
                        buffer_num,
                        buffer@,
                    ).0);
                }
                result
            },
            None => Err((buffer, ErrorCode::NoSupport)),
        }
    }

    /// Grants `buffer` to a service for reading and writing, as part of
    /// `scope`.
    ///
    /// On success the region the slot held before comes back, and the scope
    /// remembers the grant. On failure `buffer` comes back with the error.
    pub fn allow_rw(
        &mut self,
        scope: &mut Scope,
        driver_num: u32,
        buffer_num: u32,
        buffer: RwAllowBuffer,
    ) -> (result: Result<RwAllowBuffer, (RwAllowBuffer, ErrorCode)>)
        requires
            old(self).wf(),
        ensures
            final(self).wf(),
            final(self)@ == Self::allow_rw_spec(old(self)@, driver_num, buffer_num, buffer@).0,
            match Self::allow_rw_spec(old(self)@, driver_num, buffer_num, buffer@).1 {
                Ok(held) => {
                    &&& result matches Ok(previous)
                    &&& previous@ == held
                    &&& final(scope)@ == old(scope)@.push(Handle::AllowRw {
                        driver_num,
                        buffer_num,
                    })
                },
                Err(code) => {
                    &&& result matches Err((returned, error))
                    &&& returned@ == buffer@
                    &&& error == code
                    &&& final(scope)@ == old(scope)@
                },
            },
    {
        let result = self.swap_rw(driver_num, buffer_num, buffer);
        if result.is_ok() {
            scope.record(Handle::AllowRw { driver_num, buffer_num });
        }
        result
    }

    /// Takes back the region granted for reading and writing to a slot,
    /// with what the service wrote to it: the slot holds the empty region
    /// afterwards.
    pub fn unallow_rw(
        &mut self,
        driver_num: u32,
        buffer_num: u32,
    ) -> (result: Result<RwAllowBuffer, ErrorCode>)
        requires
            old(self).wf(),
        ensures
            final(self).wf(),
            final(self)@ == Self::allow_rw_spec(old(self)@, driver_num, buffer_num, Seq::empty()).0,
            match Self::allow_rw_spec(old(self)@, driver_num, buffer_num, Seq::empty()).1 {
                Ok(held) => result matches Ok(previous) && previous@ == held,
                Err(code) => result == Err::<RwAllowBuffer, ErrorCode>(code),
            },
    {
        match self.swap_rw(driver_num, buffer_num, RwAllowBuffer::default()) {
            Ok(previous) => Ok(previous),
            Err((_, code)) => Err(code),
        }
    }

    fn swap_rw(
        &mut self,
        driver_num: u32,
        buffer_num: u32,
        buffer: RwAllowBuffer,
    ) -> (result: Result<RwAllowBuffer, (RwAllowBuffer, ErrorCode)>)
        requires
            old(self).wf(),
        ensures
            final(self).wf(),
            final(self)@ == Self::allow_rw_spec(old(self)@, driver_num, buffer_num, buffer@).0,
            match Self::allow_rw_spec(old(self)@, driver_num, buffer_num, buffer@).1 {
                Ok(held) => result matches Ok(previous) && previous@ == held,
                Err(code) => result matches Err((
                    returned,
                    error,
                )) && returned@ == buffer@ && error == code,
            },
    {
        match self.find(driver_num) {
            Some(index) => {
                let ghost before = *self;
                let result = self.drivers[index].driver.allow_readwrite(buffer_num, buffer);
                proof {
                    before.lemma_update(&*self, index as int);
                    assert(self@ =~= Self::allow_rw_spec(
                        before@,
                        driver_num,
                        buffer_num,
                        buffer@,
                    ).0);
                }
                result
            },
            None => Err((buffer, ErrorCode::NoSupport)),
        }
    }

    /// Subscribes `sink` to a slot, as part of `scope`.
    ///
    /// On success the holder subscribed before comes back, if there was
    /// one, and the scope remembers the subscription.
    pub fn subscribe(
        &mut self,
        scope: &mut Scope,
        driver_num: u32,
        subscribe_num: u32,
        sink: Sink,
    ) -> (result: Result<Option<Sink>, ErrorCode>)
        requires
            old(self).wf(),
        ensures
            final(self).wf(),
            (final(self)@, result) == old(self)@.subscribe_spec(
                driver_num,
                subscribe_num,
                Some(sink),
            ),
            final(scope)@ == if result is Ok {
                old(scope)@.push(Handle::Subscribe { driver_num, subscribe_num })
            } else {
                old(scope)@
            },
    {
        let result = self.swap_sink(driver_num, subscribe_num, Some(sink));
        if result.is_ok() {
            scope.record(Handle::Subscribe { driver_num, subscribe_num });
        }
        result
    }

    /// Revokes the subscription of a slot: the holder that was subscribed
    /// comes back, with the payload it remembers.
    pub fn unsubscribe(
        &mut self,
        driver_num: u32,
        subscribe_num: u32,
    ) -> (result: Result<Option<Sink>, ErrorCode>)
        requires
            old(self).wf(),
        ensures
            final(self).wf(),
            (final(self)@, result) == old(self)@.subscribe_spec(driver_num, subscribe_num, None),
    {
        self.swap_sink(driver_num, subscribe_num, None)
    }

    fn swap_sink(
        &mut self,
        driver_num: u32,
        subscribe_num: u32,
        sink: Option<Sink>,
    ) -> (result: Result<Option<Sink>, ErrorCode>)
        requires
            old(self).wf(),
        ensures
            final(self).wf(),
            (final(self)@, result) == old(self)@.subscribe_spec(driver_num, subscribe_num, sink),
    {
        match self.find(driver_num) {
            Some(index) => {
                if (subscribe_num as usize) < self.drivers[index].upcalls.len() {
                    let ghost before = *self;
                    proof {
                        before.lemma_update(&before, index as int);
                    }
                    let previous = self.drivers[index].upcalls[subscribe_num as usize];
                    self.drivers[index].upcalls[subscribe_num as usize] = sink;
                    purge_queue(&mut self.upcall_queue, driver_num, subscribe_num);
                    proof {
                        before.lemma_update(&*self, index as int);
                        assert(self@ =~= before@.subscribe_spec(driver_num, subscribe_num, sink).0);
                    }
                    Ok(previous)
                } else {
                    proof {
                        self.lemma_update(&*self, index as int);
                    }
                    Err(ErrorCode::Invalid)
                }
            },
            None => Err(ErrorCode::NoSupport),
        }
    }

    /// The payload that the holder subscribed to a slot remembers: what was
    /// delivered to it last. It is what a caller polls after each wait.
    pub fn delivered(&self, driver_num: u32, subscribe_num: u32) -> (value: Option<UpcallArgs>)
        requires
            self.wf(),
        ensures
            value == self@.delivered(driver_num, subscribe_num),
    {
        match self.find(driver_num) {
            Some(index) => {
                proof {
                    self.lemma_update(&*self, index as int);
                }
                if (subscribe_num as usize) < self.drivers[index].upcalls.len() {
                    match self.drivers[index].upcalls[subscribe_num as usize] {
                        Some(sink) => sink.get(),
                        None => None,
                    }
                } else {
                    None
                }
            },
            None => None,
        }
    }

    /// Takes out the payload that the holder subscribed to a slot
    /// remembers: the holder is empty afterwards.
    pub fn take_delivered(
        &mut self,
        driver_num: u32,
        subscribe_num: u32,
    ) -> (value: Option<UpcallArgs>)
        requires
            old(self).wf(),
        ensures
            final(self).wf(),
            value == old(self)@.delivered(driver_num, subscribe_num),
            final(self)@ == old(self)@.take_delivered_spec(driver_num, subscribe_num),
    {
        match self.find(driver_num) {
            Some(index) => {
                let ghost before = *self;
                proof {
                    before.lemma_update(&before, index as int);
                }
                if (subscribe_num as usize) < self.drivers[index].upcalls.len() {
                    match self.drivers[index].upcalls[subscribe_num as usize] {
                        Some(sink) => {
                            let mut sink = sink;
                            let value = sink.take();
                            self.drivers[index].upcalls[subscribe_num as usize] = Some(sink);
                            proof {
                                before.lemma_update(&*self, index as int);
                                assert(self@ =~= before@.take_delivered_spec(
                                    driver_num,
                                    subscribe_num,
                                ));
                            }
                            value
                        },
                        None => None,
                    }
                } else {
                    None
                }
            },
            None => None,
        }
    }

    /// Waits for a notification: delivers the oldest pending one whose slot
    /// has a holder subscribed, dropping those before it that have none.
    ///
    /// Returns whether one was delivered. `false` means that nothing that
    /// could be delivered is pending: on a real kernel the process would
    /// stay suspended.
    pub fn yield_wait(&mut self) -> (delivered: bool)
        requires
            old(self).wf(),
        ensures
            final(self).wf(),
            (final(self)@, delivered) == old(self)@.yield_wait_spec(),
    {
        while self.upcall_queue.len() > 0
            invariant
                self.wf(),
                self@.yield_wait_spec() == old(self)@.yield_wait_spec(),
            decreases self.upcall_queue@.len(),
        {
            let ghost before = *self;
            let upcall = self.upcall_queue.remove(0);
            let ghost rest = *self;
            proof {
                assert(rest.drivers == before.drivers);
                assert(rest@ =~= (KernelView { queue: before@.queue.drop_first(), ..before@ }));
            }
            match self.find(upcall.driver_num) {
                Some(index) => {
                    proof {
                        rest.lemma_update(&rest, index as int);
                    }
                    if (upcall.subscribe_num as usize) < self.drivers[index].upcalls.len() {
                        if self.drivers[index].upcalls[upcall.subscribe_num as usize].is_some() {
                            let mut sink = Sink::new();
                            sink.receive(upcall.args.0, upcall.args.1, upcall.args.2);
                            self.drivers[index].upcalls[upcall.subscribe_num as usize] = Some(sink);
                            proof {
                                rest.lemma_update(&*self, index as int);
                                assert(self@ =~= rest@.with_sink(
                                    upcall.driver_num,
                                    upcall.subscribe_num,
                                    Some(Sink { value: Some(upcall.args) }),
                                ));
                            }
                            return true;
                        }
                    }
                },
                None => {},
            }
        }
        false
    }

    /// Waits until the holder subscribed to a slot remembers a payload, and
    /// returns it: the caller waits at least once, and again after every
    /// notification that was for another slot.
    ///
    /// `None` means that the wait cannot end: nothing that could be
    /// delivered is pending any more.
    pub fn wait_for(&mut self, driver_num: u32, subscribe_num: u32) -> (value: Option<UpcallArgs>)
        requires
            old(self).wf(),
        ensures
            final(self).wf(),
            (final(self)@, value) == old(self)@.wait_spec(driver_num, subscribe_num),
    {
        loop
            invariant
                self.wf(),
                self@.wait_spec(driver_num, subscribe_num) == old(self)@.wait_spec(
                    driver_num,
                    subscribe_num,
                ),
            decreases self@.queue.len(),
        {
            proof {
                self@.lemma_yield_wait_shrinks();
            }
            if !self.yield_wait() {
                return None;
            }
            let value = self.delivered(driver_num, subscribe_num);
            if value.is_some() {
                return value;
            }
        }
    }

    /// The service registered under `driver_num`, to look at its state.
    pub fn driver(&self, driver_num: u32) -> (driver: Option<&D>)
        requires
            self.wf(),
        ensures
            driver is Some <==> self@.has_driver(driver_num),
            driver matches Some(service) ==> service@ == self@.drivers[driver_num].driver,
    {
        match self.find(driver_num) {
            Some(index) => {
                proof {
                    self.lemma_update(&*self, index as int);
                }
                Some(&self.drivers[index].driver)
            },
            None => None,
        }
    }

    /// Takes the service registered under `driver_num` out of the kernel,
    /// with the state it has reached, and frees the number. Its
    /// subscriptions end with it.
    pub fn remove_driver(&mut self, driver_num: u32) -> (driver: Option<D>)
        requires
            old(self).wf(),
        ensures
            final(self).wf(),
            driver is Some <==> old(self)@.has_driver(driver_num),
            driver matches Some(service) ==> service@ == old(self)@.drivers[driver_num].driver,
            final(self)@ == (KernelView {
                drivers: old(self)@.drivers.remove(driver_num),
                ..old(self)@
            }),
    {
        let ghost before = *self;
        match self.find(driver_num) {
            Some(index) => {
                proof {
                    before.lemma_update(&before, index as int);
                }
                let data = self.drivers.remove(index);
                proof {
                    let position = index as int;
                    assert forall|i: int, j: int| 0 <= i < j < self.drivers@.len() implies
                        #[trigger] self.drivers@[i].id
                        != #[trigger] self.drivers@[j].id by {
                        let from_i = if i < position { i } else { i + 1 };
                        let from_j = if j < position { j } else { j + 1 };
                        assert(self.drivers@[i] == before.drivers@[from_i]);
                        assert(self.drivers@[j] == before.drivers@[from_j]);
                    }
                    let expected = before@.drivers.remove(driver_num);
                    assert forall|key: u32| #[trigger] expected.contains_key(key) implies
                        self@.drivers.contains_key(key)
                        && self@.drivers[key] == expected[key] by {
                        let k = before.index_of(key);
                        assert(k != position);
                        let to = if k < position { k } else { k - 1 };
                        assert(self.drivers@[to] == before.drivers@[k]);
                        self.lemma_index_of(to);
                    }
                    assert forall|key: u32| #[trigger] self@.drivers.contains_key(key) implies
                        expected.contains_key(key)
                    by {
                        let k = self.index_of(key);
                        let from = if k < position { k } else { k + 1 };
                        assert(self.drivers@[k] == before.drivers@[from]);
                        before.lemma_index_of(from);
                    }
                    assert(self@.drivers =~= expected);
                }
                Some(data.driver)
            },
            None => {
                proof {
                    assert(self@.drivers =~= before@.drivers.remove(driver_num));
                }
                None
            },
        }
    }

    /// Enqueues a notification, as a service does while it handles a
    /// command, or as an interrupt would between two calls.
    pub fn schedule(&mut self, driver_num: u32, subscribe_num: u32, args: UpcallArgs)
        requires
            old(self).wf(),
        ensures
            final(self).wf(),
            final(self)@ == (KernelView {
                queue: old(self)@.queue.push(Upcall { driver_num, subscribe_num, args }),
                ..old(self)@
            }),
    {
        let ghost before = *self;
        self.upcall_queue.push(Upcall { driver_num, subscribe_num, args });
        proof {
            assert(self.drivers == before.drivers);
            assert(self@ =~= (KernelView {
                queue: before@.queue.push(Upcall { driver_num, subscribe_num, args }),
                ..before@
            }));
        }
    }

    /// Registers an injected fault. It is consulted after those registered
    /// before it.
    pub fn add_override(&mut self, fault: CommandOverride)
        requires
            old(self).wf(),
        ensures
            final(self).wf(),
            final(self)@ == (KernelView {
                overrides: old(self)@.overrides.push(fault),
                ..old(self)@
            }),
    {
        let ghost before = *self;
        self.overrides.push(fault);
        proof {
            assert(self.drivers == before.drivers);
            assert(self@ =~= (KernelView { overrides: before@.overrides.push(fault), ..before@ }));
        }
    }

    /// Returns the commands issued so far, oldest first, and clears the
    /// log.
    pub fn take_command_log(&mut self) -> (log: Vec<CommandCall>)
        requires
            old(self).wf(),
        ensures
            final(self).wf(),
            log@ == old(self)@.log,
            final(self)@ == (KernelView { log: Seq::empty(), ..old(self)@ }),
    {
        let ghost before = *self;
        let mut log: Vec<CommandCall> = Vec::new();
        std::mem::swap(&mut log, &mut self.command_log);
        proof {
            assert(self.drivers == before.drivers);
            assert(self@ =~= (KernelView { log: Seq::empty(), ..before@ }));
        }
        log
    }

    /// Revokes every grant and subscription that `scope` remembers, the
    /// youngest first, and ends the scope.
    fn revoke_all(&mut self, scope: Scope)
        requires
            old(self).wf(),
        ensures
            final(self).wf(),
            final(self)@ == Self::revoke_all_spec(old(self)@, scope@),
    {
        let mut handles = scope.into_handles();
        while handles.len() > 0
            invariant
                self.wf(),
                Self::revoke_all_spec(self@, handles@) == Self::revoke_all_spec(old(self)@, scope@),
            decreases handles@.len(),
        {
            let ghost remaining = handles@;
            let handle = handles.pop().unwrap();
            assert(handles@ =~= remaining.drop_last());
            match handle {
                Handle::AllowRo { driver_num, buffer_num } => {
                    let _ = self.unallow_ro(driver_num, buffer_num);
                },
                Handle::AllowRw { driver_num, buffer_num } => {
                    let _ = self.unallow_rw(driver_num, buffer_num);
                },
                Handle::Subscribe { driver_num, subscribe_num } => {
                    let _ = self.unsubscribe(driver_num, subscribe_num);
                },
            }
        }
    }

    /// Whether a service is registered under `driver_num`.
    pub fn has_driver(&self, driver_num: u32) -> (present: bool)
        requires
            self.wf(),
        ensures
            present == self@.has_driver(driver_num),
    {
        self.find(driver_num).is_some()
    }
}

/// Drops the pending notifications for one subscription slot.
fn purge_queue(queue: &mut Vec<Upcall>, driver_num: u32, subscribe_num: u32)
    ensures
        final(queue)@ == purge(old(queue)@, driver_num, subscribe_num),
{
    let mut kept: Vec<Upcall> = Vec::new();
    let mut index: usize = 0;
    while index < queue.len()
        invariant
            index <= queue@.len(),
            queue@ == old(queue)@,
            kept@ == purge(queue@.take(index as int), driver_num, subscribe_num),
        decreases queue@.len() - index,
    {
        let upcall = queue[index];
        assert(queue@.take(index + 1).drop_last() =~= queue@.take(index as int));
        if !(upcall.driver_num == driver_num && upcall.subscribe_num == subscribe_num) {
            kept.push(upcall);
        }
        index += 1;
    }
    assert(queue@.take(index as int) =~= queue@);
    *queue = kept;
}

/// Runs `f` with a fresh scope, and revokes every grant and subscription
/// that `f` made through it before returning what `f` returned.
pub fn with_scope<D: SyscallDriver, R, F: FnOnce(&mut Kernel<D>, &mut Scope) -> R>(
    kernel: &mut Kernel<D>,
    f: F,
) -> (result: R)
    requires
        old(kernel).wf(),
        forall|inner: &mut Kernel<D>, scope: &mut Scope|
            *inner == *old(kernel) && scope@ == Seq::<Handle>::empty() ==> call_requires(
                f,
                (inner, scope),
            ),
        forall|inner: &mut Kernel<D>, scope: &mut Scope, result: R|
            call_ensures(f, (inner, scope), result) ==> final(inner).wf(),
    ensures
        final(kernel).wf(),
        exists|inner: &mut Kernel<D>, scope: &mut Scope|
            {
                &&& *inner == *old(kernel)
                &&& scope@ == Seq::<Handle>::empty()
                &&& #[trigger] call_ensures(f, (inner, scope), result)
                &&& final(kernel)@ == Kernel::<D>::revoke_all_spec(final(inner)@, final(scope)@)
            },
{
    let mut scope = Scope::new();
    let result = f(kernel, &mut scope);
    kernel.revoke_all(scope);
    result
}

} // verus!
