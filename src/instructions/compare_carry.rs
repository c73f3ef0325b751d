use vstd::prelude::*;
use crate::interpreter::{outcome, read_register, SimulationContext, SimulationUpdate};
use crate::parser::Instruction;
use crate::semantics::{effect, SimulationError};

verus! {

/// `COMPARECY lhs, rhs`: flags of `lhs - rhs - carry`, which is dropped. Carry
/// on borrow; zero when the operands are equal and carry was clear.
pub fn register_register(ctx: &SimulationContext, lhs: u8, rhs: u8) -> (r: Result<
    SimulationUpdate,
    SimulationError,
>)
    requires
        ctx.wf(),
        lhs < 16,
        rhs < 16,
    ensures
        outcome(r) == effect(ctx@, Instruction::CompareCarry { lhs, rhs }),
{
    let mut update = SimulationUpdate::new(ctx);
    let first = read_register(ctx, lhs) as i32;
    let second = read_register(ctx, rhs) as i32;
    let carry_in: i32 = if ctx.get_carry_flag() {
        1
    } else {
        0
    };
    update.carry = first - second - carry_in < 0;
    update.zero = first == second && !ctx.get_carry_flag();
    Ok(update)
}

/// `COMPARECY lhs, constant`: the same with an immediate, which must fit in a byte.
pub fn register_constant(ctx: &SimulationContext, lhs: u8, rhs: u32) -> (r: Result<
    SimulationUpdate,
    SimulationError,
>)
    requires
        ctx.wf(),
        lhs < 16,
    ensures
        outcome(r) == effect(ctx@, Instruction::CompareCarryConstant { lhs, rhs }),
{
    if rhs > 255 {
        return Err(SimulationError::ConstantTooLarge(rhs));
    }
    let mut update = SimulationUpdate::new(ctx);
    let first = read_register(ctx, lhs) as i32;
    let second = rhs as i32;
    let carry_in: i32 = if ctx.get_carry_flag() {
        1
    } else {
        0
    };
    update.carry = first - second - carry_in < 0;
    update.zero = first == second && !ctx.get_carry_flag();
    Ok(update)
}

} // verus!
