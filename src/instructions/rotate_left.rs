use vstd::prelude::*;
use crate::interpreter::{outcome, read_register, write_result, SimulationContext, SimulationUpdate};
use crate::parser::Instruction;
use crate::semantics::{effect, SimulationError};

verus! {

/// `RL index`: rotates left by one; bit 7 re-enters at bit 0 and is copied to
/// carry, zero is set when the result is 0.
pub fn register(ctx: &SimulationContext, index: u8) -> (r: Result<
    SimulationUpdate,
    SimulationError,
>)
    requires
        ctx.wf(),
        index < 16,
    ensures
        outcome(r) == effect(ctx@, Instruction::RotateLeft { register: index }),
{
    let update = SimulationUpdate::new(ctx);
    let value = read_register(ctx, index);
    let rotated_bit = value / 128;
    let result = ((value as u16 * 2) % 256 + rotated_bit as u16) as u8;
    Ok(write_result(update, index, result, result == 0, rotated_bit == 1))
}

} // verus!
