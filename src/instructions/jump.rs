use vstd::prelude::*;
use crate::interpreter::{condition_met, outcome, read_register, SimulationContext, SimulationUpdate};
use crate::parser::Instruction;
use crate::semantics::{effect, jump_effect, SimulationError, MAX_ADDRESS};
use crate::tokenizer::ConditionType;

verus! {

/// `JUMP [condition,] addr`: moves to `addr` when the condition holds.
/// An address past the program store is a fault whatever the flags.
pub fn address(ctx: &SimulationContext, addr: u32, condition: Option<ConditionType>) -> (r:
    Result<SimulationUpdate, SimulationError>)
    requires
        ctx.wf(),
    ensures
        outcome(r) == jump_effect(ctx@, addr, condition),
{
    let mut update = SimulationUpdate::new(ctx);
    if addr > MAX_ADDRESS {
        return Err(SimulationError::AddressOutOfRange(addr));
    }
    if condition_met(ctx, condition) {
        update.pc = addr as usize;
    }
    Ok(update)
}

/// `JUMP@ (first, second)`: moves to the address whose upper bits are the low
/// nibble of `first` and whose low byte is `second`.
pub fn register_pair(ctx: &SimulationContext, first: u8, second: u8) -> (r: Result<
    SimulationUpdate,
    SimulationError,
>)
    requires
        ctx.wf(),
        first < 16,
        second < 16,
    ensures
        outcome(r) == effect(ctx@, Instruction::JumpAt { first, second }),
{
    let mut update = SimulationUpdate::new(ctx);
    let target = (read_register(ctx, first) % 16) as u32 * 256 + read_register(ctx, second) as u32;
    if target > MAX_ADDRESS {
        return Err(SimulationError::AddressOutOfRange(target));
    }
    update.pc = target as usize;
    Ok(update)
}

} // verus!
