use picoblaze::parser::{Instruction, Parser};
use picoblaze::reader::Reader;
use picoblaze::tokenizer::Tokenizer;
use picoblaze::{SimulationContext, SimulationError, StepOutcome};

fn assemble(source: &str) -> Vec<(usize, Instruction)> {
    let mut reader = Reader::new();
    reader.read_buffer_and_split(source.to_string());
    let mut tokenizer = Tokenizer::new();
    tokenizer.tokenize(reader.get_contents().clone()).unwrap();
    let mut parser = Parser::new();
    parser.parse(tokenizer.get_tokens().clone()).unwrap();
    parser.get_instructions().clone()
}

#[test]
fn decimal_load_then_add() {
    let mut sim = SimulationContext::new_with_instructions(assemble("LOAD s0, 01'd\nADD s0, 02'd\n"));
    assert_eq!(sim.run(100), Ok(StepOutcome::Halted));
    assert_eq!(sim.get_register(0), Some(3));
    assert!(!sim.get_zero_flag());
    assert!(!sim.get_carry_flag());
}

#[test]
fn add_wraps_to_zero_with_carry() {
    let mut sim = SimulationContext::new_with_instructions(assemble("LOAD s0, FF\nADD s0, 01\n"));
    assert_eq!(sim.run(100), Ok(StepOutcome::Halted));
    assert_eq!(sim.get_register(0), Some(0));
    assert!(sim.get_zero_flag());
    assert!(sim.get_carry_flag());
}

#[test]
fn add_with_carry_in() {
    let mut sim = SimulationContext::new_with_instructions(assemble(
        "LOAD s0, FF\nLOAD s1, 01\nADDCY s0, 01\n",
    ));
    sim.set_carry_flag(true);
    assert_eq!(sim.run(100), Ok(StepOutcome::Halted));
    assert_eq!(sim.get_register(0), Some(1));
    assert!(sim.get_carry_flag());
    assert!(!sim.get_zero_flag());
}

#[test]
fn call_returns_after_the_call() {
    let source = "LOAD s0, 01\nCALL routine\nADD s0, 10\nroutine: ADD s0, 01\nRETURN\n";
    let mut sim = SimulationContext::new_with_instructions(assemble(source));
    // LOAD, CALL, ADD s0 01, RETURN, ADD s0 10
    assert_eq!(sim.run(5), Ok(StepOutcome::Executed));
    assert_eq!(sim.get_register(0), Some(0x12));
    assert_eq!(sim.get_program_counter(), 3);
    // Falling through into the routine again returns with an empty stack.
    assert_eq!(sim.run(100), Err(SimulationError::CallStackUnderflow));
    assert_eq!(sim.get_register(0), Some(0x13));
}

#[test]
fn thirty_first_nested_call_overflows() {
    let mut source = String::new();
    for k in 0..31 {
        source.push_str(&format!("l{}: CALL l{}\n", k, k + 1));
    }
    source.push_str("l31: LOAD s0, 01\n");
    let mut sim = SimulationContext::new_with_instructions(assemble(&source));
    assert_eq!(sim.run(30), Ok(StepOutcome::Executed));
    assert_eq!(sim.get_call_stack().len(), 30);
    assert_eq!(sim.get_program_counter(), 30);
    assert_eq!(sim.step(), Err(SimulationError::CallStackOverflow));
    assert_eq!(sim.get_call_stack().len(), 30);
}

#[test]
fn rotate_left_from_source() {
    let mut sim = SimulationContext::new_with_instructions(assemble("LOAD s0, C9\nRL s0\n"));
    assert_eq!(sim.run(100), Ok(StepOutcome::Halted));
    assert_eq!(sim.get_register(0), Some(0x93));
    assert!(sim.get_carry_flag());
}

#[test]
fn forward_label_constant_and_register_name() {
    let source = "CONSTANT limit, 05\nNAMEREG s3, counter\nstart: LOAD counter, 00\nloop: ADD counter, 01\nCOMPARE counter, limit\nJUMP NZ, loop\nSTORE counter, 02\nFETCH s4, 02\n";
    let mut sim = SimulationContext::new_with_instructions(assemble(source));
    assert_eq!(sim.run(1000), Ok(StepOutcome::Halted));
    assert_eq!(sim.get_register(3), Some(5));
    assert_eq!(sim.get_register(4), Some(5));
    assert_eq!(sim.get_scratch_pad_memory(2), Some(5));
    assert!(sim.get_zero_flag());
}

#[test]
fn address_directive_places_code() {
    let source = "JUMP far\nADDRESS 010\nfar: LOAD s1, 2a\n";
    let program = assemble(source);
    assert_eq!(program.len(), 2);
    assert_eq!(program[0].0, 0);
    assert_eq!(program[1].0, 16);
    let mut sim = SimulationContext::new_with_instructions(program);
    assert_eq!(sim.run(10), Ok(StepOutcome::Halted));
    assert_eq!(sim.get_register(1), Some(0x2a));
    assert_eq!(sim.get_program_counter(), 17);
}

#[test]
fn register_pair_jump_and_scratch_pad_round_trip() {
    let source = "LOAD s0, 00\nLOAD s1, 05\nJUMP@ (s0, s1)\nLOAD s2, ff\nLOAD s2, ee\nLOAD s5, 3f\nSTORE s2, (s5)\nFETCH s6, (s5)\n";
    let mut sim = SimulationContext::new_with_instructions(assemble(source));
    assert_eq!(sim.run(100), Ok(StepOutcome::Halted));
    assert_eq!(sim.get_register(2), Some(0));
    assert_eq!(sim.get_register(6), Some(0));
    assert_eq!(sim.get_register(5), Some(0x3f));
}

#[test]
fn shifts_and_logic_from_source() {
    let source = "LOAD s0, 81\nSL0 s0\nLOAD s1, 0f\nOR s1, f0\nAND s1, 3c\nXOR s1, s1\n";
    let mut sim = SimulationContext::new_with_instructions(assemble(source));
    assert_eq!(sim.run(2), Ok(StepOutcome::Executed));
    assert_eq!(sim.get_register(0), Some(0x02));
    assert!(sim.get_carry_flag());
    assert_eq!(sim.run(100), Ok(StepOutcome::Halted));
    assert_eq!(sim.get_register(1), Some(0));
    assert!(sim.get_zero_flag());
    assert!(!sim.get_carry_flag());
}
