use vstd::prelude::*;
use crate::interpreter::{outcome, read_register, SimulationContext, SimulationUpdate};
use crate::parser::Instruction;
use crate::semantics::{effect, MemoryOperation, SimulationError, SCRATCH_PAD_MEMORY_SIZE};

verus! {

/// `FETCH lhs, address`: loads the scratch-pad byte at `address`, which must be below 64, into register `lhs`.
pub fn register_constant(ctx: &SimulationContext, lhs: u8, rhs: u32) -> (r: Result<
    SimulationUpdate,
    SimulationError,
>)
    requires
        ctx.wf(),
        lhs < 16,
    ensures
        outcome(r) == effect(ctx@, Instruction::FetchConstant { lhs, rhs }),
{
    if rhs >= SCRATCH_PAD_MEMORY_SIZE as u32 {
        return Err(SimulationError::ScratchPadOutOfBounds(rhs));
    }
    let mut update = SimulationUpdate::new(ctx);
    update.memory_op = Some(MemoryOperation::Fetch(rhs as usize, lhs));
    Ok(update)
}

/// `FETCH lhs, (rhs)`: the same with the address held in register `rhs`.
pub fn register_deref(ctx: &SimulationContext, lhs: u8, rhs: u8) -> (r: Result<
    SimulationUpdate,
    SimulationError,
>)
    requires
        ctx.wf(),
        lhs < 16,
        rhs < 16,
    ensures
        outcome(r) == effect(ctx@, Instruction::FetchDeref { lhs, rhs }),
{
    let addr = read_register(ctx, rhs) as u32;
    if addr >= SCRATCH_PAD_MEMORY_SIZE as u32 {
        return Err(SimulationError::ScratchPadOutOfBounds(addr));
    }
    let mut update = SimulationUpdate::new(ctx);
    update.memory_op = Some(MemoryOperation::Fetch(addr as usize, lhs));
    Ok(update)
}

} // verus!
