use picoblaze::instructions::{add, add_carry, call, load, ret, subtract, subtract_carry, xor};
use picoblaze::parser::Instruction;
use picoblaze::{SimulationContext, SimulationError, StepOutcome};

#[test]
fn arithmetic_results_are_modular() {
    let mut registers = [0u8; 16];
    registers[0] = 200;
    registers[1] = 100;
    let ctx = SimulationContext::new_with_params(registers, false, true);
    let u = add::register_register(&ctx, 0, 1).unwrap();
    assert_eq!(u.registers[0], 44);
    assert!(u.carry);
    let u = add_carry::register_register(&ctx, 0, 1).unwrap();
    assert_eq!(u.registers[0], 45);
    assert!(u.carry);
    let u = subtract::register_register(&ctx, 1, 0).unwrap();
    assert_eq!(u.registers[1], 156);
    assert!(u.carry);
    let u = subtract_carry::register_constant(&ctx, 0, 200).unwrap();
    assert_eq!(u.registers[0], 255);
    assert!(u.carry);
    let u = subtract::register_constant(&ctx, 0, 200).unwrap();
    assert_eq!(u.registers[0], 0);
    assert!(u.zero);
    assert!(!u.carry);
}

#[test]
fn program_counter_wraps_at_the_last_address() {
    let mut sim = SimulationContext::new_with_instructions(vec![
        (1023, Instruction::LoadConstant { lhs: 0, rhs: 7 }),
    ]);
    sim.set_program_counter(1023);
    assert_eq!(sim.step(), Ok(StepOutcome::Executed));
    assert_eq!(sim.get_program_counter(), 0);
    assert_eq!(sim.get_register(0), Some(7));
}

#[test]
fn constant_handlers_accept_exactly_bytes() {
    let ctx = SimulationContext::new();
    assert!(load::register_constant(&ctx, 0, 255).is_ok());
    assert_eq!(load::register_constant(&ctx, 0, 256), Err(SimulationError::ConstantTooLarge(256)));
    assert!(add::register_constant(&ctx, 0, 255).is_ok());
    assert_eq!(add::register_constant(&ctx, 0, 256), Err(SimulationError::ConstantTooLarge(256)));
    assert!(xor::register_constant(&ctx, 0, 0).is_ok());
    assert!(picoblaze::instructions::compare::register_constant(&ctx, 0, 300).is_err());
}

#[test]
fn load_then_read_gives_the_constant() {
    let mut sim = SimulationContext::new_with_instructions(vec![
        (0, Instruction::LoadConstant { lhs: 9, rhs: 0xab }),
    ]);
    assert_eq!(sim.step(), Ok(StepOutcome::Executed));
    assert_eq!(sim.get_register(9), Some(0xab));
}

#[test]
fn xor_with_itself_clears() {
    let mut registers = [0u8; 16];
    registers[4] = 0x5a;
    let ctx = SimulationContext::new_with_params(registers, false, true);
    let u = xor::register_register(&ctx, 4, 4).unwrap();
    assert_eq!(u.registers[4], 0);
    assert!(u.zero);
    assert!(!u.carry);
}

#[test]
fn test_carry_marks_an_even_count_of_ones() {
    let mut registers = [0u8; 16];
    registers[0] = 0b0000_0111;
    registers[1] = 0b0000_0101;
    let ctx = SimulationContext::new_with_params(registers, false, false);
    let u = picoblaze::instructions::test::register_constant(&ctx, 0, 0xff).unwrap();
    assert!(!u.carry);
    let u = picoblaze::instructions::test::register_constant(&ctx, 0, 0b11).unwrap();
    assert!(u.carry);
    let u = picoblaze::instructions::test::register_register(&ctx, 0, 1).unwrap();
    assert!(u.carry);
    let u = picoblaze::instructions::test::register_constant(&ctx, 0, 0b1000).unwrap();
    assert!(u.zero);
    assert!(u.carry);
    assert_eq!(u.registers, registers);
    assert!(picoblaze::helpers::bit_oddity(0b11));
    assert!(!picoblaze::helpers::bit_oddity(0b111));
    assert!(picoblaze::helpers::bit_oddity(0));
}

#[test]
fn test_with_carry_counts_the_incoming_carry() {
    let mut registers = [0u8; 16];
    registers[0] = 0b0000_0011;
    let ctx = SimulationContext::new_with_params(registers, true, true);
    let u = picoblaze::instructions::test_carry::register_constant(&ctx, 0, 0xff).unwrap();
    assert!(!u.carry);
    assert!(!u.zero);
    let u = picoblaze::instructions::test_carry::register_constant(&ctx, 0, 0b1).unwrap();
    assert!(u.carry);
    let u = picoblaze::instructions::test_carry::register_constant(&ctx, 0, 0b100).unwrap();
    assert!(u.zero);
    assert!(!u.carry);
    let ctx = SimulationContext::new_with_params(registers, false, false);
    let u = picoblaze::instructions::test_carry::register_register(&ctx, 0, 0).unwrap();
    assert!(u.carry);
    assert!(!u.zero);
}

#[test]
fn call_then_return_comes_back() {
    let mut sim = SimulationContext::new_with_instructions(vec![
        (5, Instruction::Call { address: 40 }),
        (40, Instruction::Return),
    ]);
    sim.set_program_counter(5);
    assert_eq!(sim.step(), Ok(StepOutcome::Executed));
    assert_eq!(sim.get_program_counter(), 40);
    assert_eq!(sim.get_call_stack().len(), 1);
    assert_eq!(sim.step(), Ok(StepOutcome::Executed));
    assert_eq!(sim.get_program_counter(), 6);
    assert!(sim.get_call_stack().is_empty());
}

#[test]
fn runtime_faults_are_reported() {
    let ctx = SimulationContext::new();
    assert_eq!(ret::default(&ctx, None), Err(SimulationError::CallStackUnderflow));
    assert!(ret::default(&ctx, Some(picoblaze::ConditionType::IfCarry)).is_ok());
    assert_eq!(call::address(&ctx, 0x400, None), Err(SimulationError::AddressOutOfRange(0x400)));
    assert_eq!(
        picoblaze::instructions::store::register_constant(&ctx, 0, 64),
        Err(SimulationError::ScratchPadOutOfBounds(64))
    );
    assert_eq!(
        picoblaze::instructions::fetch::register_constant(&ctx, 0, 70),
        Err(SimulationError::ScratchPadOutOfBounds(70))
    );
    let mut sim = SimulationContext::new_with_instructions(vec![
        (0, Instruction::HardwareBuild { register: 0 }),
    ]);
    assert_eq!(sim.step(), Err(SimulationError::Unsupported));
    assert_eq!(sim.get_program_counter(), 0);
}

#[test]
fn empty_slot_halts() {
    let mut sim = SimulationContext::new();
    assert_eq!(sim.step(), Ok(StepOutcome::Halted));
    assert_eq!(sim.run(10), Ok(StepOutcome::Halted));
    assert_eq!(sim.get_program_counter(), 0);
}

#[test]
fn register_pair_call_pushes_return_address() {
    let mut registers = [0u8; 16];
    registers[0] = 0x13;
    registers[1] = 0x20;
    let ctx = SimulationContext::new_with_params(registers, false, false);
    let u = call::register_pair(&ctx, 0, 1).unwrap();
    assert_eq!(u.pc, 0x320);
    assert_eq!(u.call_addr, Some(1));
    registers[0] = 0x04;
    let ctx = SimulationContext::new_with_params(registers, false, false);
    assert_eq!(
        picoblaze::instructions::jump::register_pair(&ctx, 0, 1),
        Err(SimulationError::AddressOutOfRange(0x420))
    );
}

#[test]
fn reset_zeroes_the_machine() {
    let mut sim = SimulationContext::new_with_params([9u8; 16], true, true);
    sim.set_scratch_pad_memory(3, 7);
    sim.set_program_counter(12);
    sim.reset();
    assert_eq!(sim.get_registers(), [0u8; 16]);
    assert_eq!(sim.get_scratch_pad_memory(3), Some(0));
    assert_eq!(sim.get_program_counter(), 0);
    assert!(!sim.get_zero_flag() && !sim.get_carry_flag());
    assert_eq!(sim.get_register(16), None);
    assert_eq!(sim.get_scratch_pad_memory(64), None);
}
