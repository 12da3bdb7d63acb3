//! What holds of commands and of the faults injected for them.

use vstd::prelude::*;
use crate::command_return::CommandReturn;
use crate::error_code::ErrorCode;
use crate::fake::driver::SyscallDriver;
use crate::fake::fault::{
    first_override, injected_result, overrides_after, CommandCall, CommandOverride,
};
use crate::fake::kernel::Kernel;
use crate::fake::view::KernelView;

verus! {

/// A command that leaves its service as it was returns the same result
/// however often it is issued, as long as no fault is injected for it; a
/// command to a service that is not there fails the same way every time.
pub proof fn law_command_idempotent<D: SyscallDriver>(
    kernel: KernelView<D::V>,
    driver_num: u32,
    command_num: u32,
    argument0: u32,
    argument1: u32,
)
    requires
        injected_result(
            kernel.overrides,
            CommandCall { driver_num, command_num, argument0, argument1 },
        ) is None,
        kernel.has_driver(driver_num) ==> D::command_spec(
            kernel.drivers[driver_num].driver,
            command_num,
            argument0,
            argument1,
        ).next == kernel.drivers[driver_num].driver,
    ensures
        ({
            let (after, first) = Kernel::<D>::command_spec(
                kernel,
                driver_num,
                command_num,
                argument0,
                argument1,
            );
            let (_, second) = Kernel::<D>::command_spec(
                after,
                driver_num,
                command_num,
                argument0,
                argument1,
            );
            &&& second == first
            &&& after.overrides == kernel.overrides
            &&& after.has_driver(driver_num) == kernel.has_driver(driver_num)
            &&& kernel.has_driver(driver_num) ==> after.drivers[driver_num].driver
                == kernel.drivers[driver_num].driver
            &&& !kernel.has_driver(driver_num) ==> first == CommandReturn::Failure(
                ErrorCode::NoSupport,
            )
        }),
{
    let call = CommandCall { driver_num, command_num, argument0, argument1 };
    lemma_first_override(kernel.overrides, call, 0);
}

/// An injected fault that is armed for one use answers exactly one command
/// that matches it: that command returns the injected result, is logged and
/// still reaches its service, and the next one is answered by the service
/// again.
pub proof fn law_one_shot_override<D: SyscallDriver>(
    kernel: KernelView<D::V>,
    fault: CommandOverride,
    call: CommandCall,
)
    requires
        fault.remaining == 1,
        fault.applies_to(call),
        injected_result(kernel.overrides, call) is None,
    ensures
        ({
            let armed = KernelView { overrides: kernel.overrides.push(fault), ..kernel };
            let (after, first) = Kernel::<D>::command_spec(
                armed,
                call.driver_num,
                call.command_num,
                call.argument0,
                call.argument1,
            );
            let unarmed = Kernel::<D>::command_spec(
                kernel,
                call.driver_num,
                call.command_num,
                call.argument0,
                call.argument1,
            ).0;
            let (_, second) = Kernel::<D>::command_spec(
                after,
                call.driver_num,
                call.command_num,
                call.argument0,
                call.argument1,
            );
            &&& first == fault.result
            &&& after.log == kernel.log.push(call)
            &&& after.drivers == unarmed.drivers
            &&& after.queue == unarmed.queue
            &&& injected_result(after.overrides, call) is None
            &&& second == if after.has_driver(call.driver_num) {
                D::command_spec(
                    after.drivers[call.driver_num].driver,
                    call.command_num,
                    call.argument0,
                    call.argument1,
                ).result
            } else {
                CommandReturn::Failure(ErrorCode::NoSupport)
            }
        }),
{
    let armed = kernel.overrides.push(fault);
    let position = kernel.overrides.len() as int;
    lemma_first_override(kernel.overrides, call, 0);
    lemma_first_override(armed, call, 0);
    assert forall|index: int| 0 <= index < position implies
        !(#[trigger] armed[index]).applies_to(call)
    by {
        assert(armed[index] == kernel.overrides[index]);
    }
    assert(armed[position].applies_to(call));
    assert(first_override(armed, call, 0) == position);
    let spent = overrides_after(armed, call);
    assert forall|index: int| 0 <= index < spent.len() implies
        !(#[trigger] spent[index]).applies_to(call)
    by {
        if index < position {
            assert(spent[index] == kernel.overrides[index]);
        }
    }
    lemma_no_override(spent, call, 0);
}

/// The override found is the first that applies.
pub proof fn lemma_first_override(overrides: Seq<CommandOverride>, call: CommandCall, start: int)
    requires
        0 <= start,
    ensures
        start <= first_override(overrides, call, start) || first_override(overrides, call, start)
            == overrides.len(),
        first_override(overrides, call, start) <= overrides.len(),
        first_override(overrides, call, start) < overrides.len() ==> overrides[first_override(
            overrides,
            call,
            start,
        )].applies_to(call),
        forall|index: int|
            start <= index < first_override(overrides, call, start) ==>
                !(#[trigger] overrides[index]).applies_to(
                    call,
                ),
    decreases overrides.len() - start,
{
    if start < overrides.len() && !overrides[start].applies_to(call) {
        lemma_first_override(overrides, call, start + 1);
    }
}

/// Where no fault applies among the overrides from `start` on, none is
/// found and none is used up.
pub proof fn lemma_no_override(overrides: Seq<CommandOverride>, call: CommandCall, start: int)
    requires
        0 <= start,
        forall|index: int|
            start <= index < overrides.len() ==> !(#[trigger] overrides[index]).applies_to(call),
    ensures
        first_override(overrides, call, start) == overrides.len(),
    decreases overrides.len() - start,
{
    if start < overrides.len() {
        lemma_no_override(overrides, call, start + 1);
    }
}

} // verus!
