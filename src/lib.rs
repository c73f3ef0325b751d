//! A simulator for a small 8-bit microcontroller of the PicoBlaze family:
//! source text is read, tokenized and assembled into an instruction table,
//! which a fetch-decode-execute engine then runs over a machine state.
pub mod helpers;
pub mod instructions;
pub mod interpreter;
pub mod parser;
pub mod reader;
pub mod semantics;
pub mod syntax;
pub mod text;
pub mod tokenizer;

pub use interpreter::{SimulationContext, SimulationUpdate};
pub use semantics::{MemoryOperation, SimulationError, StepOutcome};
pub use tokenizer::{ConditionType, NumberType, Token};
