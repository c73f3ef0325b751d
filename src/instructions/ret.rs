use vstd::prelude::*;
use crate::interpreter::{condition_met, outcome, SimulationContext, SimulationUpdate};
use crate::semantics::{return_effect, SimulationError};
use crate::tokenizer::ConditionType;

verus! {

/// `RETURN [condition]`: when the condition holds, asks for the top of the
/// call stack to become the program counter. A taken return with an empty
/// call stack is a fault.
pub fn default(ctx: &SimulationContext, condition: Option<ConditionType>) -> (r: Result<
    SimulationUpdate,
    SimulationError,
>)
    requires
        ctx.wf(),
    ensures
        outcome(r) == return_effect(ctx@, condition),
{
    let mut update = SimulationUpdate::new(ctx);
    if condition_met(ctx, condition) {
        if ctx.get_call_stack().len() == 0 {
            return Err(SimulationError::CallStackUnderflow);
        }
        update.ret_addr = true;
    }
    Ok(update)
}

} // verus!
