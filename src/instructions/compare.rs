use vstd::prelude::*;
use crate::interpreter::{outcome, read_register, SimulationContext, SimulationUpdate};
use crate::parser::Instruction;
use crate::semantics::{effect, SimulationError};

verus! {

/// `COMPARE lhs, rhs`: flags of `lhs - rhs`, which is dropped. Carry when
/// `lhs < rhs`, zero when they are equal.
pub fn register_register(ctx: &SimulationContext, lhs: u8, rhs: u8) -> (r: Result<
    SimulationUpdate,
    SimulationError,
>)
    requires
        ctx.wf(),
        lhs < 16,
        rhs < 16,
    ensures
        outcome(r) == effect(ctx@, Instruction::Compare { lhs, rhs }),
{
    let mut update = SimulationUpdate::new(ctx);
    let first = read_register(ctx, lhs);
    let second = read_register(ctx, rhs);
    update.carry = first < second;
    update.zero = first == second;
    Ok(update)
}

/// `COMPARE lhs, constant`: the same with an immediate, which must fit in a byte.
pub fn register_constant(ctx: &SimulationContext, lhs: u8, rhs: u32) -> (r: Result<
    SimulationUpdate,
    SimulationError,
>)
    requires
        ctx.wf(),
        lhs < 16,
    ensures
        outcome(r) == effect(ctx@, Instruction::CompareConstant { lhs, rhs }),
{
    if rhs > 255 {
        return Err(SimulationError::ConstantTooLarge(rhs));
    }
    let mut update = SimulationUpdate::new(ctx);
    let first = read_register(ctx, lhs) as u32;
    update.carry = first < rhs;
    update.zero = first == rhs;
    Ok(update)
}

} // verus!
