use vstd::prelude::*;
use crate::interpreter::{outcome, read_register, SimulationContext, SimulationUpdate};
use crate::parser::Instruction;
use crate::semantics::{effect, SimulationError};

verus! {

/// `LOAD lhs, rhs`: `lhs := rhs`; flags unchanged.
pub fn register_register(ctx: &SimulationContext, lhs: u8, rhs: u8) -> (r: Result<
    SimulationUpdate,
    SimulationError,
>)
    requires
        ctx.wf(),
        lhs < 16,
        rhs < 16,
    ensures
        outcome(r) == effect(ctx@, Instruction::Load { lhs, rhs }),
{
    let mut update = SimulationUpdate::new(ctx);
    update.registers[lhs as usize] = read_register(ctx, rhs);
    assert(update@.registers =~= ctx@.registers.update(lhs as int, ctx@.registers[rhs as int]));
    Ok(update)
}

/// `LOAD lhs, constant`: `lhs := constant`, which must fit in a byte.
pub fn register_constant(ctx: &SimulationContext, lhs: u8, rhs: u32) -> (r: Result<
    SimulationUpdate,
    SimulationError,
>)
    requires
        ctx.wf(),
        lhs < 16,
    ensures
        outcome(r) == effect(ctx@, Instruction::LoadConstant { lhs, rhs }),
{
    if rhs > 255 {
        return Err(SimulationError::ConstantTooLarge(rhs));
    }
    let mut update = SimulationUpdate::new(ctx);
    update.registers[lhs as usize] = rhs as u8;
    assert(update@.registers =~= ctx@.registers.update(lhs as int, rhs as u8));
    Ok(update)
}

} // verus!
