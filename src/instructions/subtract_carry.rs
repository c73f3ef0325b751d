use vstd::prelude::*;
use crate::interpreter::{outcome, read_register, write_result, SimulationContext, SimulationUpdate};
use crate::parser::Instruction;
use crate::semantics::{effect, SimulationError};

verus! {

/// `lhs - b - borrow` as a byte, and whether it went below zero.
fn difference(a: u8, b: u8, borrow: bool) -> (r: (u8, bool))
    ensures
        r.0 == ((a - b - (if borrow { 1int } else { 0int })) % 256) as u8,
        r.1 == (a - b - (if borrow { 1int } else { 0int }) < 0),
{
    let d: i16 = a as i16 - b as i16 - (if borrow { 1i16 } else { 0i16 });
    if d < 0 {
        ((d + 256) as u8, true)
    } else {
        (d as u8, false)
    }
}

/// `SUBCY lhs, rhs`: `lhs := (lhs - rhs - carry) mod 256`, carry on borrow, zero when the result is 0.
pub fn register_register(ctx: &SimulationContext, lhs: u8, rhs: u8) -> (r: Result<
    SimulationUpdate,
    SimulationError,
>)
    requires
        ctx.wf(),
        lhs < 16,
        rhs < 16,
    ensures
        outcome(r) == effect(ctx@, Instruction::SubtractCarry { lhs, rhs }),
{
    let update = SimulationUpdate::new(ctx);
    let first = read_register(ctx, lhs);
    let second = read_register(ctx, rhs);
    let (result, borrow) = difference(first, second, ctx.get_carry_flag());
    Ok(write_result(update, lhs, result, result == 0, borrow))
}

/// `SUBCY lhs, constant`: the same with an immediate, which must fit in a byte.
pub fn register_constant(ctx: &SimulationContext, lhs: u8, rhs: u32) -> (r: Result<
    SimulationUpdate,
    SimulationError,
>)
    requires
        ctx.wf(),
        lhs < 16,
    ensures
        outcome(r) == effect(ctx@, Instruction::SubtractCarryConstant { lhs, rhs }),
{
    if rhs > 255 {
        return Err(SimulationError::ConstantTooLarge(rhs));
    }
    let update = SimulationUpdate::new(ctx);
    let first = read_register(ctx, lhs);
    let (result, borrow) = difference(first, rhs as u8, ctx.get_carry_flag());
    Ok(write_result(update, lhs, result, result == 0, borrow))
}

} // verus!
