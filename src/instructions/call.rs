use vstd::prelude::*;
use crate::interpreter::{condition_met, outcome, read_register, SimulationContext, SimulationUpdate};
use crate::parser::Instruction;
use crate::semantics::{
    call_effect, effect, SimulationError, CALL_STACK_CAPACITY, MAX_ADDRESS, PROGRAM_MEMORY_SIZE,
};
use crate::tokenizer::ConditionType;

verus! {

/// `CALL [condition,] addr`: when the condition holds, moves to `addr`
/// and pushes the address after this one. An address past the program store
/// is a fault whatever the flags; so is a taken call with a full call stack.
pub fn address(ctx: &SimulationContext, addr: u32, condition: Option<ConditionType>) -> (r:
    Result<SimulationUpdate, SimulationError>)
    requires
        ctx.wf(),
    ensures
        outcome(r) == call_effect(ctx@, addr, condition),
{
    let mut update = SimulationUpdate::new(ctx);
    if addr > MAX_ADDRESS {
        return Err(SimulationError::AddressOutOfRange(addr));
    }
    if condition_met(ctx, condition) {
        if ctx.get_call_stack().len() >= CALL_STACK_CAPACITY {
            return Err(SimulationError::CallStackOverflow);
        }
        update.pc = addr as usize;
        update.call_addr = Some((ctx.get_program_counter() + 1) % PROGRAM_MEMORY_SIZE);
    }
    Ok(update)
}

/// `CALL@ (first, second)`: calls the address held by the register pair, as
/// `JUMP@` forms it.
pub fn register_pair(ctx: &SimulationContext, first: u8, second: u8) -> (r: Result<
    SimulationUpdate,
    SimulationError,
>)
    requires
        ctx.wf(),
        first < 16,
        second < 16,
    ensures
        outcome(r) == effect(ctx@, Instruction::CallAt { first, second }),
{
    let mut update = SimulationUpdate::new(ctx);
    let target = (read_register(ctx, first) % 16) as u32 * 256 + read_register(ctx, second) as u32;
    if target > MAX_ADDRESS {
        return Err(SimulationError::AddressOutOfRange(target));
    }
    if ctx.get_call_stack().len() >= CALL_STACK_CAPACITY {
        return Err(SimulationError::CallStackOverflow);
    }
    update.pc = target as usize;
    update.call_addr = Some((ctx.get_program_counter() + 1) % PROGRAM_MEMORY_SIZE);
    Ok(update)
}

} // verus!
