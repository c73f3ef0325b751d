use vstd::prelude::*;
use crate::interpreter::{outcome, read_register, write_result, SimulationContext, SimulationUpdate};
use crate::parser::Instruction;
use crate::semantics::{effect, SimulationError};

verus! {

/// `ADDCY lhs, rhs`: `lhs := (lhs + rhs + carry) mod 256`, carry when the sum passes 255, zero when the result is 0.
pub fn register_register(ctx: &SimulationContext, lhs: u8, rhs: u8) -> (r: Result<
    SimulationUpdate,
    SimulationError,
>)
    requires
        ctx.wf(),
        lhs < 16,
        rhs < 16,
    ensures
        outcome(r) == effect(ctx@, Instruction::AddCarry { lhs, rhs }),
{
    let update = SimulationUpdate::new(ctx);
    let first = read_register(ctx, lhs);
    let second = read_register(ctx, rhs);
    let carry_in: u16 = if ctx.get_carry_flag() {
        1
    } else {
        0
    };
    let sum: u16 = first as u16 + second as u16 + carry_in;
    let result = (sum % 256) as u8;
    Ok(write_result(update, lhs, result, result == 0, sum > 255))
}

/// `ADDCY lhs, constant`: the same with an immediate, which must fit in a byte.
pub fn register_constant(ctx: &SimulationContext, lhs: u8, rhs: u32) -> (r: Result<
    SimulationUpdate,
    SimulationError,
>)
    requires
        ctx.wf(),
        lhs < 16,
    ensures
        outcome(r) == effect(ctx@, Instruction::AddCarryConstant { lhs, rhs }),
{
    if rhs > 255 {
        return Err(SimulationError::ConstantTooLarge(rhs));
    }
    let update = SimulationUpdate::new(ctx);
    let first = read_register(ctx, lhs);
    let carry_in: u16 = if ctx.get_carry_flag() {
        1
    } else {
        0
    };
    let sum: u16 = first as u16 + rhs as u16 + carry_in;
    let result = (sum % 256) as u8;
    Ok(write_result(update, lhs, result, result == 0, sum > 255))
}

} // verus!
