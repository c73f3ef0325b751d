use vstd::prelude::*;
use crate::interpreter::{outcome, read_register, write_result, SimulationContext, SimulationUpdate};
use crate::parser::Instruction;
use crate::semantics::{effect, SimulationError};

verus! {

/// `OR lhs, rhs`: `lhs := lhs | rhs`, carry cleared, zero when the result is 0.
pub fn register_register(ctx: &SimulationContext, lhs: u8, rhs: u8) -> (r: Result<
    SimulationUpdate,
    SimulationError,
>)
    requires
        ctx.wf(),
        lhs < 16,
        rhs < 16,
    ensures
        outcome(r) == effect(ctx@, Instruction::Or { lhs, rhs }),
{
    let update = SimulationUpdate::new(ctx);
    let result = read_register(ctx, lhs) | read_register(ctx, rhs);
    Ok(write_result(update, lhs, result, result == 0, false))
}

/// `OR lhs, constant`: the same with an immediate, which must fit in a byte.
pub fn register_constant(ctx: &SimulationContext, lhs: u8, rhs: u32) -> (r: Result<
    SimulationUpdate,
    SimulationError,
>)
    requires
        ctx.wf(),
        lhs < 16,
    ensures
        outcome(r) == effect(ctx@, Instruction::OrConstant { lhs, rhs }),
{
    if rhs > 255 {
        return Err(SimulationError::ConstantTooLarge(rhs));
    }
    let update = SimulationUpdate::new(ctx);
    let result = read_register(ctx, lhs) | rhs as u8;
    Ok(write_result(update, lhs, result, result == 0, false))
}

} // verus!
