//! What a simulated service has to offer to be hosted by the kernel.

use vstd::prelude::*;
use crate::allow::{RoAllowBuffer, RwAllowBuffer};
use crate::command_return::CommandReturn;
use crate::error_code::ErrorCode;
use crate::upcall::Upcall;

verus! {

/// What a command does to a service: the state it leaves, the result it
/// returns and the notifications it enqueues, in order.
pub struct CommandEffect<V> {
    pub next: V,
    pub result: CommandReturn,
    pub upcalls: Seq<Upcall>,
}

/// A simulated service. Its behaviour is a deterministic function of its
/// state, given by the `*_spec` functions over its view; the executable
/// methods implement exactly that function.
///
/// A service keeps the regions granted to it, one per slot. The laws say
/// that it keeps them honestly: a grant swaps the slot's region, touches no
/// other slot, and whether a slot takes grants never changes.
pub trait SyscallDriver: View + Sized {
    /// The number the service asks to be addressed by.
    spec fn driver_num(state: Self::V) -> u32;

    /// How many subscription slots the service declares.
    spec fn upcall_count(state: Self::V) -> u32;

    /// The read-only region held in slot `buffer_num`; empty if none.
    spec fn ro_buffer(state: Self::V, buffer_num: u32) -> Seq<u8>;

    /// The read-write region held in slot `buffer_num`; empty if none.
    spec fn rw_buffer(state: Self::V, buffer_num: u32) -> Seq<u8>;

    /// The state after a read-only grant of `buffer` to slot `buffer_num`,
    /// or the error the grant is refused with.
    spec fn allow_readonly_spec(
        state: Self::V,
        buffer_num: u32,
        buffer: Seq<u8>,
    ) -> Result<Self::V, ErrorCode>;

    /// The state after a read-write grant of `buffer` to slot `buffer_num`,
    /// or the error the grant is refused with.
    spec fn allow_readwrite_spec(
        state: Self::V,
        buffer_num: u32,
        buffer: Seq<u8>,
    ) -> Result<Self::V, ErrorCode>;

    /// What the command does.
    spec fn command_spec(
        state: Self::V,
        command_num: u32,
        argument0: u32,
        argument1: u32,
    ) -> CommandEffect<Self::V>;

    /// A read-only grant stores the region in its slot and leaves every
    /// other slot alone; whether it is accepted depends on the slot only.
    proof fn allow_readonly_law(state: Self::V, buffer_num: u32, buffer: Seq<u8>)
        ensures
            Self::allow_readonly_spec(state, buffer_num, buffer) is Ok
                <==> Self::allow_readonly_spec(state, buffer_num, Seq::empty()) is Ok,
            Self::allow_readonly_spec(state, buffer_num, buffer) matches Ok(next) ==> {
                &&& Self::ro_buffer(next, buffer_num) == buffer
                &&& forall|other: u32|
                    other != buffer_num ==> #[trigger] Self::ro_buffer(next, other)
                        == Self::ro_buffer(state, other)
                &&& forall|other: u32| #[trigger]
                    Self::rw_buffer(next, other) == Self::rw_buffer(state, other)
                &&& forall|other: u32| #[trigger]
                    Self::allow_readonly_spec(next, other, Seq::empty()) is Ok
                        <==> Self::allow_readonly_spec(state, other, Seq::empty()) is Ok
                &&& forall|other: u32| #[trigger]
                    Self::allow_readwrite_spec(next, other, Seq::empty()) is Ok
                        <==> Self::allow_readwrite_spec(state, other, Seq::empty()) is Ok
            },
    ;

    /// A read-write grant stores the region in its slot and leaves every
    /// other slot alone; whether it is accepted depends on the slot only.
    proof fn allow_readwrite_law(state: Self::V, buffer_num: u32, buffer: Seq<u8>)
        ensures
            Self::allow_readwrite_spec(state, buffer_num, buffer) is Ok
                <==> Self::allow_readwrite_spec(state, buffer_num, Seq::empty()) is Ok,
            Self::allow_readwrite_spec(state, buffer_num, buffer) matches Ok(next) ==> {
                &&& Self::rw_buffer(next, buffer_num) == buffer
                &&& forall|other: u32|
                    other != buffer_num ==> #[trigger] Self::rw_buffer(next, other)
                        == Self::rw_buffer(state, other)
                &&& forall|other: u32| #[trigger]
                    Self::ro_buffer(next, other) == Self::ro_buffer(state, other)
                &&& forall|other: u32| #[trigger]
                    Self::allow_readonly_spec(next, other, Seq::empty()) is Ok
                        <==> Self::allow_readonly_spec(state, other, Seq::empty()) is Ok
                &&& forall|other: u32| #[trigger]
                    Self::allow_readwrite_spec(next, other, Seq::empty()) is Ok
                        <==> Self::allow_readwrite_spec(state, other, Seq::empty()) is Ok
            },
    ;

    /// A command cannot change a region granted for reading only, nor
    /// whether a slot takes grants.
    proof fn command_law(state: Self::V, command_num: u32, argument0: u32, argument1: u32)
        ensures
            forall|other: u32| #[trigger]
                Self::ro_buffer(
                    Self::command_spec(state, command_num, argument0, argument1).next,
                    other,
                ) == Self::ro_buffer(state, other),
            forall|other: u32| #[trigger]
                Self::allow_readonly_spec(
                    Self::command_spec(state, command_num, argument0, argument1).next,
                    other,
                    Seq::empty(),
                ) is Ok <==> Self::allow_readonly_spec(state, other, Seq::empty()) is Ok,
            forall|other: u32| #[trigger]
                Self::allow_readwrite_spec(
                    Self::command_spec(state, command_num, argument0, argument1).next,
                    other,
                    Seq::empty(),
                ) is Ok <==> Self::allow_readwrite_spec(state, other, Seq::empty()) is Ok,
    ;

    /// The number the service is addressed by. It is read once, when the
    /// service is registered.
    fn id(&self) -> (id: u32)
        ensures
            id == Self::driver_num(self@),
    ;

    /// How many subscription slots the service has. It is read once, when
    /// the service is registered.
    fn num_upcalls(&self) -> (count: u32)
        ensures
            count == Self::upcall_count(self@),
    ;

    /// Takes a read-only grant: on success the slot holds `buffer` and the
    /// region it held before comes back; on refusal `buffer` comes back with
    /// the error and nothing has changed.
    fn allow_readonly(
        &mut self,
        buffer_num: u32,
        buffer: RoAllowBuffer,
    ) -> (result: Result<RoAllowBuffer, (RoAllowBuffer, ErrorCode)>)
        ensures
            match Self::allow_readonly_spec(old(self)@, buffer_num, buffer@) {
                Ok(next) => {
                    &&& final(self)@ == next
                    &&& result matches Ok(previous)
                    &&& previous@ == Self::ro_buffer(old(self)@, buffer_num)
                },
                Err(code) => {
                    &&& final(self)@ == old(self)@
                    &&& result matches Err((returned, error))
                    &&& returned@ == buffer@
                    &&& error == code
                },
            },
    ;

    /// Takes a read-write grant: on success the slot holds `buffer` and the
    /// region it held before comes back; on refusal `buffer` comes back with
    /// the error and nothing has changed.
    fn allow_readwrite(
        &mut self,
        buffer_num: u32,
        buffer: RwAllowBuffer,
    ) -> (result: Result<RwAllowBuffer, (RwAllowBuffer, ErrorCode)>)
        ensures
            match Self::allow_readwrite_spec(old(self)@, buffer_num, buffer@) {
                Ok(next) => {
                    &&& final(self)@ == next
                    &&& result matches Ok(previous)
                    &&& previous@ == Self::rw_buffer(old(self)@, buffer_num)
                },
                Err(code) => {
                    &&& final(self)@ == old(self)@
                    &&& result matches Err((returned, error))
                    &&& returned@ == buffer@
                    &&& error == code
                },
            },
    ;

    /// Handles a command. Notifications the service raises are appended to
    /// `upcalls`, from where the kernel queues them.
    fn command(
        &mut self,
        command_num: u32,
        argument0: u32,
        argument1: u32,
        upcalls: &mut Vec<Upcall>,
    ) -> (result: CommandReturn)
        ensures
            final(self)@ == Self::command_spec(old(self)@, command_num, argument0, argument1).next,
            result == Self::command_spec(old(self)@, command_num, argument0, argument1).result,
            final(upcalls)@ == old(upcalls)@ + Self::command_spec(
                old(self)@,
                command_num,
                argument0,
                argument1,
            ).upcalls,
    ;
}

} // verus!
