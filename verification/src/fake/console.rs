//! A simulated console: it keeps every byte it is told to write.

use vstd::prelude::*;
use crate::allow::{RoAllowBuffer, RwAllowBuffer};
use crate::command_return::{failure, success, CommandReturn};
use crate::error_code::ErrorCode;
use crate::fake::driver::{CommandEffect, SyscallDriver};
use crate::upcall::Upcall;

verus! {

/// The number the console is addressed by.
pub const DRIVER_NUM: u32 = 1;

/// Command: is the console there?
pub const DRIVER_CHECK: u32 = 0;

/// Command: write the first `argument0` bytes of the granted region.
pub const WRITE: u32 = 1;

/// The slot that takes the region to write from.
pub const ALLOW_WRITE: u32 = 1;

/// The subscription slot that is notified when a write is done.
pub const SUBSCRIBE_WRITE: u32 = 1;

/// The simulated console. It keeps a log of the bytes written so far, and
/// the region granted to it for writing from.
pub struct Console {
    messages: Vec<u8>,
    buffer: RoAllowBuffer,
}

/// What a console is, to a specification: its log and the region it holds.
pub struct ConsoleView {
    pub messages: Seq<u8>,
    pub buffer: Seq<u8>,
}

impl View for Console {
    type V = ConsoleView;

    closed spec fn view(&self) -> ConsoleView {
        ConsoleView { messages: self.messages@, buffer: self.buffer@ }
    }
}

/// How many bytes a write of `requested` bytes takes from a region of
/// `granted` bytes: as many as requested, but no more than are there.
pub open spec fn accepted_len(granted: nat, requested: u32) -> nat {
    if requested <= granted {
        requested as nat
    } else {
        granted
    }
}

impl Console {
    /// A console with an empty log and no region granted.
    pub fn new() -> (console: Console)
        ensures
            console@ == (ConsoleView { messages: Seq::empty(), buffer: Seq::empty() }),
    {
        Console { messages: Vec::new(), buffer: RoAllowBuffer::default() }
    }

    /// Returns the bytes that have been written so far, and clears the log.
    pub fn take_bytes(&mut self) -> (bytes: Vec<u8>)
        ensures
            bytes@ == old(self)@.messages,
            final(self)@ == (ConsoleView { messages: Seq::empty(), buffer: old(self)@.buffer }),
    {
        let mut bytes: Vec<u8> = Vec::new();
        std::mem::swap(&mut bytes, &mut self.messages);
        bytes
    }
}

impl SyscallDriver for Console {
    open spec fn driver_num(state: ConsoleView) -> u32 {
        DRIVER_NUM
    }

    open spec fn upcall_count(state: ConsoleView) -> u32 {
        2
    }

    open spec fn ro_buffer(state: ConsoleView, buffer_num: u32) -> Seq<u8> {
        if buffer_num == ALLOW_WRITE {
            state.buffer
        } else {
            Seq::empty()
        }
    }

    open spec fn rw_buffer(state: ConsoleView, buffer_num: u32) -> Seq<u8> {
        Seq::empty()
    }

    open spec fn allow_readonly_spec(
        state: ConsoleView,
        buffer_num: u32,
        buffer: Seq<u8>,
    ) -> Result<ConsoleView, ErrorCode> {
        if buffer_num == ALLOW_WRITE {
            Ok(ConsoleView { messages: state.messages, buffer })
        } else {
            Err(ErrorCode::Invalid)
        }
    }

    open spec fn allow_readwrite_spec(
        state: ConsoleView,
        buffer_num: u32,
        buffer: Seq<u8>,
    ) -> Result<ConsoleView, ErrorCode> {
        Err(ErrorCode::Invalid)
    }

    open spec fn command_spec(
        state: ConsoleView,
        command_num: u32,
        argument0: u32,
        argument1: u32,
    ) -> CommandEffect<ConsoleView> {
        if command_num == DRIVER_CHECK {
            CommandEffect { next: state, result: CommandReturn::Success, upcalls: Seq::empty() }
        } else if command_num == WRITE {
            let size = accepted_len(state.buffer.len(), argument0);
            CommandEffect {
                next: ConsoleView {
                    messages: state.messages + state.buffer.take(size as int),
                    buffer: state.buffer,
                },
                result: CommandReturn::Success,
                upcalls: seq![
                    Upcall {
                        driver_num: DRIVER_NUM,
                        subscribe_num: SUBSCRIBE_WRITE,
                        args: (size as u32, 0, 0),
                    },
                ],
            }
        } else {
            CommandEffect {
                next: state,
                result: CommandReturn::Failure(ErrorCode::NoSupport),
                upcalls: Seq::empty(),
            }
        }
    }

    proof fn allow_readonly_law(state: ConsoleView, buffer_num: u32, buffer: Seq<u8>) {
    }

    proof fn allow_readwrite_law(state: ConsoleView, buffer_num: u32, buffer: Seq<u8>) {
    }

    proof fn command_law(state: ConsoleView, command_num: u32, argument0: u32, argument1: u32) {
    }

    fn id(&self) -> (id: u32) {
        DRIVER_NUM
    }

    fn num_upcalls(&self) -> (count: u32) {
        2
    }

    fn allow_readonly(
        &mut self,
        buffer_num: u32,
        buffer: RoAllowBuffer,
    ) -> (result: Result<RoAllowBuffer, (RoAllowBuffer, ErrorCode)>) {
        if buffer_num == ALLOW_WRITE {
            let mut previous = buffer;
            std::mem::swap(&mut previous, &mut self.buffer);
            Ok(previous)
        } else {
            Err((buffer, ErrorCode::Invalid))
        }
    }

    fn allow_readwrite(
        &mut self,
        buffer_num: u32,
        buffer: RwAllowBuffer,
    ) -> (result: Result<RwAllowBuffer, (RwAllowBuffer, ErrorCode)>) {
        Err((buffer, ErrorCode::Invalid))
    }

    fn command(
        &mut self,
        command_num: u32,
        argument0: u32,
        argument1: u32,
        upcalls: &mut Vec<Upcall>,
    ) -> (result: CommandReturn) {
        if command_num == DRIVER_CHECK {
            assert(upcalls@ + Seq::<Upcall>::empty() =~= upcalls@);
            success()
        } else if command_num == WRITE {
            let granted: usize = self.buffer.len();
            let size: usize = if (argument0 as usize) <= granted {
                argument0 as usize
            } else {
                granted
            };
            let ghost before = self.messages@;
            assert(before + self.buffer@.take(0) =~= before);
            let mut index: usize = 0;
            while index < size
                invariant
                    index <= size <= self.buffer@.len(),
                    self.buffer@ == old(self).buffer@,
                    self.messages@ == before + self.buffer@.take(index as int),
                decreases size - index,
            {
                self.messages.push(self.buffer.bytes[index]);
                index += 1;
                assert(self.buffer@.take(index as int) =~= self.buffer@.take(index - 1).push(
                    self.buffer@[index - 1],
                ));
                assert(before + self.buffer@.take(index - 1).push(self.buffer@[index - 1])
                    =~= (before + self.buffer@.take(index - 1)).push(self.buffer@[index - 1]));
            }
            let upcall = Upcall {
                driver_num: DRIVER_NUM,
                subscribe_num: SUBSCRIBE_WRITE,
                args: (size as u32, 0, 0),
            };
            upcalls.push(upcall);
            assert(old(upcalls)@.push(upcall) =~= old(upcalls)@ + seq![upcall]);
            success()
        } else {
            assert(upcalls@ + Seq::<Upcall>::empty() =~= upcalls@);
            failure(ErrorCode::NoSupport)
        }
    }
}

/// A console that was just made holds no region: the first grant to it
/// returns the empty region.
pub proof fn law_first_grant_returns_nothing(console: Console, buffer: Seq<u8>)
    requires
        console@ == (ConsoleView { messages: Seq::empty(), buffer: Seq::empty() }),
    ensures
        Console::allow_readonly_spec(console@, ALLOW_WRITE, buffer) is Ok,
        Console::ro_buffer(console@, ALLOW_WRITE) == Seq::<u8>::empty(),
{
}

} // verus!
