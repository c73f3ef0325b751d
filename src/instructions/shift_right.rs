use vstd::prelude::*;
use crate::helpers::ShiftMode;
use crate::interpreter::{outcome, read_register, write_result, SimulationContext, SimulationUpdate};
use crate::semantics::{right_in_bit, shift_right_update, SimulationError};

verus! {

/// The bit that enters at bit 7, in its place.
fn get_shift_value(register: u8, carry: bool, mode: ShiftMode) -> (r: u8)
    ensures
        r == 128 * right_in_bit(register as int, carry, mode),
{
    match mode {
        ShiftMode::Carry => {
            if carry {
                128
            } else {
                0
            }
        },
        ShiftMode::Number(n) => {
            assert((n & 1u8) == n % 2) by (bit_vector);
            (n & 1) * 128
        },
        ShiftMode::Repeat => {
            assert((register & 128u8) == 128 * (register / 128)) by (bit_vector);
            register & 128
        },
    }
}

/// `SR0`, `SR1`, `SRX`, `SRA`: shifts register `index` right by one, bringing
/// in the bit that `mode` names; carry takes the bit that leaves, zero is set
/// when the result is 0.
pub fn register(ctx: &SimulationContext, index: u8, mode: ShiftMode) -> (r: Result<
    SimulationUpdate,
    SimulationError,
>)
    requires
        ctx.wf(),
        index < 16,
    ensures
        outcome(r) == Ok::<_, SimulationError>(shift_right_update(ctx@, index, mode)),
{
    let update = SimulationUpdate::new(ctx);
    let value = read_register(ctx, index);
    let shift_value = get_shift_value(value, ctx.get_carry_flag(), mode);
    let result = value / 2 + shift_value;
    Ok(write_result(update, index, result, result == 0, value % 2 == 1))
}

} // verus!
