use vstd::prelude::*;
use crate::helpers::ShiftMode;
use crate::interpreter::{outcome, read_register, write_result, SimulationContext, SimulationUpdate};
use crate::semantics::{left_in_bit, shift_left_update, SimulationError};

verus! {

/// The bit that enters at bit 0.
fn get_shift_value(register: u8, carry: bool, mode: ShiftMode) -> (r: u8)
    ensures
        r == left_in_bit(register as int, carry, mode),
{
    match mode {
        ShiftMode::Carry => {
            if carry {
                1
            } else {
                0
            }
        },
        ShiftMode::Number(n) => {
            assert((n & 1u8) == n % 2) by (bit_vector);
            n & 1
        },
        ShiftMode::Repeat => {
            assert((register & 1u8) == register % 2) by (bit_vector);
            register & 1
        },
    }
}

/// `SL0`, `SL1`, `SLX`, `SLA`: shifts register `index` left by one, bringing
/// in the bit that `mode` names; carry takes the bit that leaves, zero is set
/// when the result is 0.
pub fn register(ctx: &SimulationContext, index: u8, mode: ShiftMode) -> (r: Result<
    SimulationUpdate,
    SimulationError,
>)
    requires
        ctx.wf(),
        index < 16,
    ensures
        outcome(r) == Ok::<_, SimulationError>(shift_left_update(ctx@, index, mode)),
{
    let update = SimulationUpdate::new(ctx);
    let value = read_register(ctx, index);
    let shift_value = get_shift_value(value, ctx.get_carry_flag(), mode);
    let result = ((value as u16 * 2) % 256 + shift_value as u16) as u8;
    Ok(write_result(update, index, result, result == 0, value >= 128))
}

} // verus!
