use vstd::prelude::*;
use crate::interpreter::{outcome, read_register, SimulationContext, SimulationUpdate};
use crate::parser::Instruction;
use crate::semantics::{effect, SimulationError};
use crate::helpers::bit_oddity;

verus! {

/// `TEST lhs, rhs`: flags of `lhs & rhs`, which is dropped. Zero when it is 0;
/// carry when it holds an even number of one bits.
pub fn register_register(ctx: &SimulationContext, lhs: u8, rhs: u8) -> (r: Result<
    SimulationUpdate,
    SimulationError,
>)
    requires
        ctx.wf(),
        lhs < 16,
        rhs < 16,
    ensures
        outcome(r) == effect(ctx@, Instruction::Test { lhs, rhs }),
{
    let mut update = SimulationUpdate::new(ctx);
    let result = read_register(ctx, lhs) & read_register(ctx, rhs);
    update.carry = bit_oddity(result);
    update.zero = result == 0;
    Ok(update)
}

/// `TEST lhs, constant`: the same with an immediate, which must fit in a byte.
pub fn register_constant(ctx: &SimulationContext, lhs: u8, rhs: u32) -> (r: Result<
    SimulationUpdate,
    SimulationError,
>)
    requires
        ctx.wf(),
        lhs < 16,
    ensures
        outcome(r) == effect(ctx@, Instruction::TestConstant { lhs, rhs }),
{
    if rhs > 255 {
        return Err(SimulationError::ConstantTooLarge(rhs));
    }
    let mut update = SimulationUpdate::new(ctx);
    let result = read_register(ctx, lhs) & rhs as u8;
    update.carry = bit_oddity(result);
    update.zero = result == 0;
    Ok(update)
}

} // verus!
