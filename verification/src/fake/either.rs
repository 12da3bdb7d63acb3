//! Hosting services of two kinds in one kernel.

use vstd::prelude::*;
use crate::allow::{RoAllowBuffer, RwAllowBuffer};
use crate::command_return::CommandReturn;
use crate::error_code::ErrorCode;
use crate::fake::driver::{CommandEffect, SyscallDriver};
use crate::upcall::Upcall;

verus! {

/// A service that is of one kind or of another. A kernel that hosts
/// `Either<A, B>` hosts services of both kinds side by side; nesting it
/// hosts more.
pub enum Either<A, B> {
    Left(A),
    Right(B),
}

/// The state of a service of one kind or of another.
pub enum EitherView<A, B> {
    Left(A),
    Right(B),
}

impl<A: SyscallDriver, B: SyscallDriver> View for Either<A, B> {
    type V = EitherView<A::V, B::V>;

    open spec fn view(&self) -> EitherView<A::V, B::V> {
        match self {
            Either::Left(service) => EitherView::Left(service@),
            Either::Right(service) => EitherView::Right(service@),
        }
    }
}

/// The effect of a command on a service of the first kind, as an effect on
/// a service of either kind.
pub open spec fn left_effect<A, B>(effect: CommandEffect<A>) -> CommandEffect<EitherView<A, B>> {
    CommandEffect {
        next: EitherView::Left(effect.next),
        result: effect.result,
        upcalls: effect.upcalls,
    }
}

/// The effect of a command on a service of the second kind, as an effect on
/// a service of either kind.
pub open spec fn right_effect<A, B>(effect: CommandEffect<B>) -> CommandEffect<EitherView<A, B>> {
    CommandEffect {
        next: EitherView::Right(effect.next),
        result: effect.result,
        upcalls: effect.upcalls,
    }
}

impl<A: SyscallDriver, B: SyscallDriver> SyscallDriver for Either<A, B> {
    open spec fn driver_num(state: EitherView<A::V, B::V>) -> u32 {
        match state {
            EitherView::Left(service) => A::driver_num(service),
            EitherView::Right(service) => B::driver_num(service),
        }
    }

    open spec fn upcall_count(state: EitherView<A::V, B::V>) -> u32 {
        match state {
            EitherView::Left(service) => A::upcall_count(service),
            EitherView::Right(service) => B::upcall_count(service),
        }
    }

    open spec fn ro_buffer(state: EitherView<A::V, B::V>, buffer_num: u32) -> Seq<u8> {
        match state {
            EitherView::Left(service) => A::ro_buffer(service, buffer_num),
            EitherView::Right(service) => B::ro_buffer(service, buffer_num),
        }
    }

    open spec fn rw_buffer(state: EitherView<A::V, B::V>, buffer_num: u32) -> Seq<u8> {
        match state {
            EitherView::Left(service) => A::rw_buffer(service, buffer_num),
            EitherView::Right(service) => B::rw_buffer(service, buffer_num),
        }
    }

    open spec fn allow_readonly_spec(
        state: EitherView<A::V, B::V>,
        buffer_num: u32,
        buffer: Seq<u8>,
    ) -> Result<EitherView<A::V, B::V>, ErrorCode> {
        match state {
            EitherView::Left(service) => match A::allow_readonly_spec(service, buffer_num, buffer) {
                Ok(next) => Ok(EitherView::Left(next)),
                Err(code) => Err(code),
            },
            EitherView::Right(service) => match B::allow_readonly_spec(service, buffer_num, buffer) {
                Ok(next) => Ok(EitherView::Right(next)),
                Err(code) => Err(code),
            },
        }
    }

    open spec fn allow_readwrite_spec(
        state: EitherView<A::V, B::V>,
        buffer_num: u32,
        buffer: Seq<u8>,
    ) -> Result<EitherView<A::V, B::V>, ErrorCode> {
        match state {
            EitherView::Left(service) => match A::allow_readwrite_spec(service, buffer_num, buffer) {
                Ok(next) => Ok(EitherView::Left(next)),
                Err(code) => Err(code),
            },
            EitherView::Right(service) => match B::allow_readwrite_spec(
                service,
                buffer_num,
                buffer,
            ) {
                Ok(next) => Ok(EitherView::Right(next)),
                Err(code) => Err(code),
            },
        }
    }

    open spec fn command_spec(
        state: EitherView<A::V, B::V>,
        command_num: u32,
        argument0: u32,
        argument1: u32,
    ) -> CommandEffect<EitherView<A::V, B::V>> {
        match state {
            EitherView::Left(service) => left_effect(
                A::command_spec(service, command_num, argument0, argument1),
            ),
            EitherView::Right(service) => right_effect(
                B::command_spec(service, command_num, argument0, argument1),
            ),
        }
    }

    proof fn allow_readonly_law(state: EitherView<A::V, B::V>, buffer_num: u32, buffer: Seq<u8>) {
        match state {
            EitherView::Left(service) => {
                A::allow_readonly_law(service, buffer_num, buffer);
            },
            EitherView::Right(service) => {
                B::allow_readonly_law(service, buffer_num, buffer);
            },
        }
    }

    proof fn allow_readwrite_law(state: EitherView<A::V, B::V>, buffer_num: u32, buffer: Seq<u8>) {
        match state {
            EitherView::Left(service) => {
                A::allow_readwrite_law(service, buffer_num, buffer);
            },
            EitherView::Right(service) => {
                B::allow_readwrite_law(service, buffer_num, buffer);
            },
        }
    }

    proof fn command_law(
        state: EitherView<A::V, B::V>,
        command_num: u32,
        argument0: u32,
        argument1: u32,
    ) {
        match state {
            EitherView::Left(service) => {
                A::command_law(service, command_num, argument0, argument1);
            },
            EitherView::Right(service) => {
                B::command_law(service, command_num, argument0, argument1);
            },
        }
    }

    fn id(&self) -> (id: u32) {
        match self {
            Either::Left(service) => service.id(),
            Either::Right(service) => service.id(),
        }
    }

    fn num_upcalls(&self) -> (count: u32) {
        match self {
            Either::Left(service) => service.num_upcalls(),
            Either::Right(service) => service.num_upcalls(),
        }
    }

    fn allow_readonly(
        &mut self,
        buffer_num: u32,
        buffer: RoAllowBuffer,
    ) -> (result: Result<RoAllowBuffer, (RoAllowBuffer, ErrorCode)>) {
        match self {
            Either::Left(service) => service.allow_readonly(buffer_num, buffer),
            Either::Right(service) => service.allow_readonly(buffer_num, buffer),
        }
    }

    fn allow_readwrite(
        &mut self,
        buffer_num: u32,
        buffer: RwAllowBuffer,
    ) -> (result: Result<RwAllowBuffer, (RwAllowBuffer, ErrorCode)>) {
        match self {
            Either::Left(service) => service.allow_readwrite(buffer_num, buffer),
            Either::Right(service) => service.allow_readwrite(buffer_num, buffer),
        }
    }

    fn command(
        &mut self,
        command_num: u32,
        argument0: u32,
        argument1: u32,
        upcalls: &mut Vec<Upcall>,
    ) -> (result: CommandReturn) {
        match self {
            Either::Left(service) => service.command(command_num, argument0, argument1, upcalls),
            Either::Right(service) => service.command(command_num, argument0, argument1, upcalls),
        }
    }
}

} // verus!
