//! Fault injection: forcing a command to return a chosen result.

use vstd::prelude::*;
use crate::command_return::CommandReturn;

verus! {

/// A command as the process issued it.
#[derive(Clone, Copy, Debug, PartialEq, Eq, Structural)]
pub struct CommandCall {
    pub driver_num: u32,
    pub command_num: u32,
    pub argument0: u32,
    pub argument1: u32,
}

/// An injected fault: the next `remaining` commands that match are answered
/// with `result` in place of what the service returns. An argument pattern
/// of `None` matches every value.
#[derive(Clone, Copy, Debug, PartialEq, Eq)]
pub struct CommandOverride {
    pub driver_num: u32,
    pub command_num: u32,
    pub argument0: Option<u32>,
    pub argument1: Option<u32>,
    pub result: CommandReturn,
    pub remaining: u32,
}

impl CommandOverride {
    /// Whether the override is still armed and `call` fits its key.
    pub open spec fn applies_to(self, call: CommandCall) -> bool {
        &&& self.remaining > 0
        &&& self.driver_num == call.driver_num
        &&& self.command_num == call.command_num
        &&& (self.argument0 matches Some(argument0) ==> argument0 == call.argument0)
        &&& (self.argument1 matches Some(argument1) ==> argument1 == call.argument1)
    }

    /// The override after it has answered one call.
    pub open spec fn used_once(self) -> CommandOverride {
        CommandOverride { remaining: (self.remaining - 1) as u32, ..self }
    }

    pub(crate) fn check(&self, call: &CommandCall) -> (applies: bool)
        ensures
            applies == self.applies_to(*call),
    {
        let fits0 = match self.argument0 {
            Some(argument0) => argument0 == call.argument0,
            None => true,
        };
        let fits1 = match self.argument1 {
            Some(argument1) => argument1 == call.argument1,
            None => true,
        };
        self.remaining > 0 && self.driver_num == call.driver_num && self.command_num
            == call.command_num && fits0 && fits1
    }
}

/// Index of the first override at or after `start` that applies to `call`;
/// the length of `overrides` if there is none.
pub open spec fn first_override(
    overrides: Seq<CommandOverride>,
    call: CommandCall,
    start: int,
) -> int
    decreases overrides.len() - start,
{
    if start < 0 || start >= overrides.len() {
        overrides.len() as int
    } else if overrides[start].applies_to(call) {
        start
    } else {
        first_override(overrides, call, start + 1)
    }
}

/// The result injected for `call`, if an override applies to it. Overrides
/// are consulted in the order in which they were registered.
pub open spec fn injected_result(
    overrides: Seq<CommandOverride>,
    call: CommandCall,
) -> Option<CommandReturn> {
    let index = first_override(overrides, call, 0);
    if index < overrides.len() {
        Some(overrides[index].result)
    } else {
        None
    }
}

/// The overrides after `call` was answered: the one that applied, if any,
/// has one use less.
pub open spec fn overrides_after(
    overrides: Seq<CommandOverride>,
    call: CommandCall,
) -> Seq<CommandOverride> {
    let index = first_override(overrides, call, 0);
    if index < overrides.len() {
        overrides.update(index, overrides[index].used_once())
    } else {
        overrides
    }
}

pub(crate) fn take_override(
    overrides: &mut Vec<CommandOverride>,
    call: &CommandCall,
) -> (injected: Option<CommandReturn>)
    ensures
        injected == injected_result(old(overrides)@, *call),
        final(overrides)@ == overrides_after(old(overrides)@, *call),
{
    let mut index: usize = 0;
    while index < overrides.len()
        invariant
            index <= overrides@.len(),
            overrides@ == old(overrides)@,
            first_override(overrides@, *call, 0) == first_override(overrides@, *call, index as int),
        decreases overrides@.len() - index,
    {
        if overrides[index].check(call) {
            let found = overrides[index];
            overrides[index].remaining = found.remaining - 1;
            assert(overrides@ =~= old(overrides)@.update(index as int, found.used_once()));
            return Some(found.result);
        }
        index += 1;
    }
    None
}

} // verus!
