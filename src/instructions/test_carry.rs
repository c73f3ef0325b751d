use vstd::prelude::*;
use crate::interpreter::{outcome, read_register, SimulationContext, SimulationUpdate};
use crate::parser::Instruction;
use crate::semantics::{effect, SimulationError};
use crate::helpers::bit_oddity;

verus! {

/// `TESTCY lhs, rhs`: flags of `lhs & rhs` chained with the previous ones. Zero
/// when it is 0 and zero was set; carry when its one bits and the incoming
/// carry are even in number.
pub fn register_register(ctx: &SimulationContext, lhs: u8, rhs: u8) -> (r: Result<
    SimulationUpdate,
    SimulationError,
>)
    requires
        ctx.wf(),
        lhs < 16,
        rhs < 16,
    ensures
        outcome(r) == effect(ctx@, Instruction::TestCarry { lhs, rhs }),
{
    let mut update = SimulationUpdate::new(ctx);
    let result = read_register(ctx, lhs) & read_register(ctx, rhs);
    update.carry = bit_oddity(result) != ctx.get_carry_flag();
    update.zero = result == 0 && ctx.get_zero_flag();
    Ok(update)
}

/// `TESTCY lhs, constant`: the same with an immediate, which must fit in a byte.
pub fn register_constant(ctx: &SimulationContext, lhs: u8, rhs: u32) -> (r: Result<
    SimulationUpdate,
    SimulationError,
>)
    requires
        ctx.wf(),
        lhs < 16,
    ensures
        outcome(r) == effect(ctx@, Instruction::TestCarryConstant { lhs, rhs }),
{
    if rhs > 255 {
        return Err(SimulationError::ConstantTooLarge(rhs));
    }
    let mut update = SimulationUpdate::new(ctx);
    let result = read_register(ctx, lhs) & rhs as u8;
    update.carry = bit_oddity(result) != ctx.get_carry_flag();
    update.zero = result == 0 && ctx.get_zero_flag();
    Ok(update)
}

} // verus!
