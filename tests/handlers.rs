use picoblaze::helpers::ShiftMode;
use picoblaze::instructions::{
    add_carry, call, compare, jump, load, ret, rotate_left, rotate_right, shift_left, shift_right,
    store, subtract_carry, xor,
};
use picoblaze::{ConditionType, MemoryOperation, SimulationContext, SimulationUpdate};

#[test]
fn add_between_registers() {
    let mut registers = [0u8; 16];
    let mut end_registers = [0u8; 16];

    registers[0] = 0b00000001;
    registers[1] = 0b00000001;

    end_registers[0] = 0b00000010;
    end_registers[1] = 0b00000001;

    let context = SimulationContext::new_with_params(registers, false, false);

    assert_eq!(
        add_carry::register_register(&context, 0, 1).unwrap(),
        SimulationUpdate {
            registers: end_registers,
            carry: false,
            zero: false,
            pc: 1,
            ..SimulationUpdate::default()
        }
    );
}

#[test]
fn add_between_registers_with_carry() {
    let mut registers = [0u8; 16];
    let mut end_registers = [0u8; 16];

    registers[0] = 0b00000001;
    registers[1] = 0b00000001;

    end_registers[0] = 0b00000011;
    end_registers[1] = 0b00000001;

    let context = SimulationContext::new_with_params(registers, false, true);

    assert_eq!(
        add_carry::register_register(&context, 0, 1).unwrap(),
        SimulationUpdate {
            registers: end_registers,
            carry: false,
            zero: false,
            pc: 1,
            ..SimulationUpdate::default()
        }
    );
}

#[test]
fn add_between_register_and_constant() {
    let mut registers = [0u8; 16];
    let mut end_registers = [0u8; 16];

    registers[0] = 0b00000001;

    end_registers[0] = 0b00000010;

    let context = SimulationContext::new_with_params(registers, false, false);

    assert_eq!(
        add_carry::register_constant(&context, 0, 1).unwrap(),
        SimulationUpdate {
            registers: end_registers,
            carry: false,
            zero: false,
            pc: 1,
            ..SimulationUpdate::default()
        }
    );
}

#[test]
fn add_between_register_and_constant_with_carry() {
    let mut registers = [0u8; 16];
    let mut end_registers = [0u8; 16];

    registers[0] = 0b00000001;

    end_registers[0] = 0b00000011;

    let context = SimulationContext::new_with_params(registers, false, true);

    assert_eq!(
        add_carry::register_constant(&context, 0, 1).unwrap(),
        SimulationUpdate {
            registers: end_registers,
            carry: false,
            zero: false,
            pc: 1,
            ..SimulationUpdate::default()
        }
    );
}

#[test]
fn add_carry() {
    let mut registers = [0u8; 16];
    let mut end_registers = [0u8; 16];

    registers[0] = 255;

    end_registers[0] = 0;

    let context = SimulationContext::new_with_params(registers, false, false);

    assert_eq!(
        add_carry::register_constant(&context, 0, 1).unwrap(),
        SimulationUpdate {
            registers: end_registers,
            carry: true,
            zero: true,
            pc: 1,
            ..SimulationUpdate::default()
        }
    );
}

#[test]
fn add_carry_with_carry() {
    let mut registers = [0u8; 16];
    let mut end_registers = [0u8; 16];

    registers[0] = 255;

    end_registers[0] = 1;

    let context = SimulationContext::new_with_params(registers, false, true);

    assert_eq!(
        add_carry::register_constant(&context, 0, 1).unwrap(),
        SimulationUpdate {
            registers: end_registers,
            carry: true,
            zero: false,
            pc: 1,
            ..SimulationUpdate::default()
        }
    );
}

#[test]
fn sub_between_registers() {
    let mut registers = [0u8; 16];
    let mut end_registers = [0u8; 16];

    registers[0] = 0b00000101;
    registers[1] = 0b00000001;

    end_registers[0] = 0b00000100;
    end_registers[1] = 0b00000001;

    let context = SimulationContext::new_with_params(registers, false, false);

    assert_eq!(
        subtract_carry::register_register(&context, 0, 1).unwrap(),
        SimulationUpdate {
            registers: end_registers,
            carry: false,
            zero: false,
            pc: 1,
            ..SimulationUpdate::default()
        }
    );
}

#[test]
fn sub_between_registers_with_carry() {
    let mut registers = [0u8; 16];
    let mut end_registers = [0u8; 16];

    registers[0] = 0b00000101;
    registers[1] = 0b00000001;

    end_registers[0] = 0b00000011;
    end_registers[1] = 0b00000001;

    let context = SimulationContext::new_with_params(registers, false, true);

    assert_eq!(
        subtract_carry::register_register(&context, 0, 1).unwrap(),
        SimulationUpdate {
            registers: end_registers,
            carry: false,
            zero: false,
            pc: 1,
            ..SimulationUpdate::default()
        }
    );
}

#[test]
fn sub_between_register_and_constant() {
    let mut registers = [0u8; 16];
    let mut end_registers = [0u8; 16];

    registers[0] = 0b00000101;

    end_registers[0] = 0b00000100;

    let context = SimulationContext::new_with_params(registers, false, false);

    assert_eq!(
        subtract_carry::register_constant(&context, 0, 1).unwrap(),
        SimulationUpdate {
            registers: end_registers,
            carry: false,
            zero: false,
            pc: 1,
            ..SimulationUpdate::default()
        }
    );
}

#[test]
fn sub_between_register_and_constant_with_carry() {
    let mut registers = [0u8; 16];
    let mut end_registers = [0u8; 16];

    registers[0] = 0b00000101;

    end_registers[0] = 0b00000011;

    let context = SimulationContext::new_with_params(registers, false, true);

    assert_eq!(
        subtract_carry::register_constant(&context, 0, 1).unwrap(),
        SimulationUpdate {
            registers: end_registers,
            carry: false,
            zero: false,
            pc: 1,
            ..SimulationUpdate::default()
        }
    );
}

#[test]
fn sub_carry() {
    let mut registers = [0u8; 16];
    let mut end_registers = [0u8; 16];

    registers[0] = 0;

    end_registers[0] = 255;

    let context = SimulationContext::new_with_params(registers, false, false);

    assert_eq!(
        subtract_carry::register_constant(&context, 0, 1).unwrap(),
        SimulationUpdate {
            registers: end_registers,
            carry: true,
            zero: false,
            pc: 1,
            ..SimulationUpdate::default()
        }
    );
}

#[test]
fn compare_between_registers() {
    let mut registers = [0u8; 16];
    let mut end_registers = [0u8; 16];

    registers[0] = 0b00000101;
    registers[1] = 0b00000001;

    end_registers[0] = 0b00000101;
    end_registers[1] = 0b00000001;

    let context = SimulationContext::new_with_params(registers, false, false);

    assert_eq!(
        compare::register_register(&context, 0, 1).unwrap(),
        SimulationUpdate {
            registers: end_registers,
            carry: false,
            zero: false,
            pc: 1,
            ..SimulationUpdate::default()
        }
    );
}

#[test]
fn compare_between_register_and_constant() {
    let mut registers = [0u8; 16];
    let mut end_registers = [0u8; 16];

    registers[0] = 0b00000101;

    end_registers[0] = 0b00000101;

    let context = SimulationContext::new_with_params(registers, false, false);

    assert_eq!(
        compare::register_constant(&context, 0, 5).unwrap(),
        SimulationUpdate {
            registers: end_registers,
            carry: false,
            zero: true,
            pc: 1,
            ..SimulationUpdate::default()
        }
    );
}

#[test]
fn compare_carry() {
    let mut registers = [0u8; 16];
    let mut end_registers = [0u8; 16];

    registers[0] = 0;

    end_registers[0] = 0;

    let context = SimulationContext::new_with_params(registers, false, false);

    assert_eq!(
        compare::register_constant(&context, 0, 1).unwrap(),
        SimulationUpdate {
            registers: end_registers,
            carry: true,
            zero: false,
            pc: 1,
            ..SimulationUpdate::default()
        }
    );
}

#[test]
fn load_between_registers() {
    let mut registers = [0u8; 16];
    let mut end_registers = [0u8; 16];

    registers[0] = 0b00001111;
    registers[1] = 0b00001100;

    end_registers[0] = 0b00001100;
    end_registers[1] = 0b00001100;

    let context = SimulationContext::new_with_params(registers, false, false);

    assert_eq!(
        load::register_register(&context, 0, 1).unwrap(),
        SimulationUpdate {
            registers: end_registers,
            carry: false,
            zero: false,
            pc: 1,
            ..SimulationUpdate::default()
        }
    );
}

#[test]
fn load_between_register_and_constant() {
    let mut registers = [0u8; 16];
    let mut end_registers = [0u8; 16];

    registers[0] = 0b00001111;

    end_registers[0] = 0b00001100;

    let context = SimulationContext::new_with_params(registers, false, false);

    assert_eq!(
        load::register_constant(&context, 0, 0b00001100).unwrap(),
        SimulationUpdate {
            registers: end_registers,
            carry: false,
            zero: false,
            pc: 1,
            ..SimulationUpdate::default()
        }
    );
}

#[test]
fn rotate_left() {
    let mut registers = [0u8; 16];
    let mut end_registers = [0u8; 16];

    registers[0] = 0b11001001;

    end_registers[0] = 0b10010011;

    let context = SimulationContext::new_with_params(registers, false, false);

    assert_eq!(
        rotate_left::register(&context, 0).unwrap(),
        SimulationUpdate {
            registers: end_registers,
            carry: true,
            zero: false,
            pc: 1,
            ..SimulationUpdate::default()
        }
    );
}

#[test]
fn rotate_right() {
    let mut registers = [0u8; 16];
    let mut end_registers = [0u8; 16];

    registers[0] = 0b11001001;

    end_registers[0] = 0b11100100;

    let context = SimulationContext::new_with_params(registers, false, false);

    assert_eq!(
        rotate_right::register(&context, 0).unwrap(),
        SimulationUpdate {
            registers: end_registers,
            carry: true,
            zero: false,
            pc: 1,
            ..SimulationUpdate::default()
        }
    );
}

#[test]
fn shift_left_zero() {
    let mut registers = [0u8; 16];
    let mut end_registers = [0u8; 16];

    registers[0] = 0b00000010;

    end_registers[0] = 0b0000100;

    let context = SimulationContext::new_with_params(registers, false, false);

    assert_eq!(
        shift_left::register(&context, 0, ShiftMode::Number(0)).unwrap(),
        SimulationUpdate {
            registers: end_registers,
            carry: false,
            zero: false,
            pc: 1,
            ..SimulationUpdate::default()
        }
    );
}

#[test]
fn shift_left_one() {
    let mut registers = [0u8; 16];
    let mut end_registers = [0u8; 16];

    registers[0] = 0b00000010;

    end_registers[0] = 0b0000101;

    let context = SimulationContext::new_with_params(registers, false, false);

    assert_eq!(
        shift_left::register(&context, 0, ShiftMode::Number(1)).unwrap(),
        SimulationUpdate {
            registers: end_registers,
            carry: false,
            zero: false,
            pc: 1,
            ..SimulationUpdate::default()
        }
    );
}

#[test]
fn shift_left_carry() {
    let mut registers = [0u8; 16];
    let mut end_registers = [0u8; 16];

    registers[0] = 0b00000010;

    end_registers[0] = 0b0000101;

    let context = SimulationContext::new_with_params(registers, false, true);

    assert_eq!(
        shift_left::register(&context, 0, ShiftMode::Carry).unwrap(),
        SimulationUpdate {
            registers: end_registers,
            carry: false,
            zero: false,
            pc: 1,
            ..SimulationUpdate::default()
        }
    );
}

#[test]
fn shift_left_repeat() {
    let mut registers = [0u8; 16];
    let mut end_registers = [0u8; 16];

    registers[0] = 0b00000011;

    end_registers[0] = 0b00000111;

    let context = SimulationContext::new_with_params(registers, false, false);

    assert_eq!(
        shift_left::register(&context, 0, ShiftMode::Repeat).unwrap(),
        SimulationUpdate {
            registers: end_registers,
            carry: false,
            zero: false,
            pc: 1,
            ..SimulationUpdate::default()
        }
    );
}

#[test]
fn shift_right_zero() {
    let mut registers = [0u8; 16];
    let mut end_registers = [0u8; 16];

    registers[0] = 0b00000011;

    end_registers[0] = 0b00000001;

    let context = SimulationContext::new_with_params(registers, false, false);

    assert_eq!(
        shift_right::register(&context, 0, ShiftMode::Number(0)).unwrap(),
        SimulationUpdate {
            registers: end_registers,
            carry: true,
            zero: false,
            pc: 1,
            ..SimulationUpdate::default()
        }
    );
}

#[test]
fn shift_right_one() {
    let mut registers = [0u8; 16];
    let mut end_registers = [0u8; 16];

    registers[0] = 0b00000011;

    end_registers[0] = 0b10000001;

    let context = SimulationContext::new_with_params(registers, false, false);

    assert_eq!(
        shift_right::register(&context, 0, ShiftMode::Number(1)).unwrap(),
        SimulationUpdate {
            registers: end_registers,
            carry: true,
            zero: false,
            pc: 1,
            ..SimulationUpdate::default()
        }
    );
}

#[test]
fn shift_right_carry() {
    let mut registers = [0u8; 16];
    let mut end_registers = [0u8; 16];

    registers[0] = 0b00000011;

    end_registers[0] = 0b10000001;

    let context = SimulationContext::new_with_params(registers, false, true);

    assert_eq!(
        shift_right::register(&context, 0, ShiftMode::Carry).unwrap(),
        SimulationUpdate {
            registers: end_registers,
            carry: true,
            zero: false,
            pc: 1,
            ..SimulationUpdate::default()
        }
    );
}

#[test]
fn shift_right_repeat() {
    let mut registers = [0u8; 16];
    let mut end_registers = [0u8; 16];

    registers[0] = 0b10000011;

    end_registers[0] = 0b11000001;

    let context = SimulationContext::new_with_params(registers, false, false);

    assert_eq!(
        shift_right::register(&context, 0, ShiftMode::Repeat).unwrap(),
        SimulationUpdate {
            registers: end_registers,
            carry: true,
            zero: false,
            pc: 1,
            ..SimulationUpdate::default()
        }
    );
}

#[test]
fn test_between_registers() {
    let mut registers = [0u8; 16];
    let mut end_registers = [0u8; 16];

    registers[0] = 0b00001111;
    registers[1] = 0b00001100;

    end_registers[0] = 0b00001111;
    end_registers[1] = 0b00001100;

    let context = SimulationContext::new_with_params(registers, false, false);

    assert_eq!(
        picoblaze::instructions::test::register_register(&context, 0, 1).unwrap(),
        SimulationUpdate {
            registers: end_registers,
            carry: true,
            zero: false,
            pc: 1,
            ..SimulationUpdate::default()
        }
    );
}

#[test]
fn test_between_register_and_constant() {
    let mut registers = [0u8; 16];
    let mut end_registers = [0u8; 16];

    registers[0] = 0b00001111;

    end_registers[0] = 0b00001111;

    let context = SimulationContext::new_with_params(registers, false, false);

    assert_eq!(
        picoblaze::instructions::test::register_constant(&context, 0, 0b00001101).unwrap(),
        SimulationUpdate {
            registers: end_registers,
            carry: false,
            zero: false,
            pc: 1,
            ..SimulationUpdate::default()
        }
    );
}

#[test]
fn xor_between_registers() {
    let mut registers = [0u8; 16];
    let mut end_registers = [0u8; 16];

    registers[0] = 0b00001111;
    registers[1] = 0b00001100;

    end_registers[0] = 0b00000011;
    end_registers[1] = 0b00001100;

    let context = SimulationContext::new_with_params(registers, false, false);

    assert_eq!(
        xor::register_register(&context, 0, 1).unwrap(),
        SimulationUpdate {
            registers: end_registers,
            carry: false,
            zero: false,
            pc: 1,
            ..SimulationUpdate::default()
        }
    );
}

#[test]
fn xor_between_register_and_constant() {
    let mut registers = [0u8; 16];
    let mut end_registers = [0u8; 16];

    registers[0] = 0b00001111;

    end_registers[0] = 0b00000011;

    let context = SimulationContext::new_with_params(registers, false, false);

    assert_eq!(
        xor::register_constant(&context, 0, 0b00001100).unwrap(),
        SimulationUpdate {
            registers: end_registers,
            carry: false,
            zero: false,
            pc: 1,
            ..SimulationUpdate::default()
        }
    );
}

#[test]
fn store_constant() {
    let mut registers = [0u8; 16];
    let mut end_registers = [0u8; 16];

    registers[0] = 0b00001111;

    end_registers[0] = 0b00001111;

    let context = SimulationContext::new_with_params(registers, false, false);

    assert_eq!(
        store::register_constant(&context, 0, 1).unwrap(),
        SimulationUpdate {
            registers: end_registers,
            carry: false,
            zero: false,
            pc: 1,
            memory_op: Some(MemoryOperation::Store(1usize, 15)),
            ..SimulationUpdate::default()
        }
    );
}

#[test]
fn store_deref_register() {
    let mut registers = [0u8; 16];
    let mut end_registers = [0u8; 16];

    registers[0] = 0b00001111;
    registers[1] = 0b00000100;

    end_registers[0] = 0b00001111;
    end_registers[1] = 0b00000100;

    let context = SimulationContext::new_with_params(registers, false, false);

    assert_eq!(
        store::register_deref(&context, 0, 1).unwrap(),
        SimulationUpdate {
            registers: end_registers,
            carry: false,
            zero: false,
            pc: 1,
            memory_op: Some(MemoryOperation::Store(4usize, 15)),
            ..SimulationUpdate::default()
        }
    );
}

#[test]
#[should_panic]
fn load_constant_overflow() {
    let registers = [0u8; 16];

    let context = SimulationContext::new_with_params(registers, false, false);

    assert_eq!(
        load::register_constant(&context, 0, 12345).unwrap(),
        SimulationUpdate {
            registers: registers,
            carry: false,
            zero: false,
            pc: 1,
            ..SimulationUpdate::default()
        }
    );
}

#[test]
#[should_panic]
fn test_constant_overflow() {
    let registers = [0u8; 16];

    let context = SimulationContext::new_with_params(registers, false, false);

    assert_eq!(
        picoblaze::instructions::test::register_constant(&context, 0, 12345).unwrap(),
        SimulationUpdate {
            registers: registers,
            carry: false,
            zero: false,
            pc: 1,
            ..SimulationUpdate::default()
        }
    );
}

#[test]
#[should_panic]
fn xor_constant_overflow() {
    let registers = [0u8; 16];

    let context = SimulationContext::new_with_params(registers, false, false);

    assert_eq!(
        xor::register_constant(&context, 0, 12345).unwrap(),
        SimulationUpdate {
            registers: registers,
            carry: false,
            zero: false,
            pc: 1,
            ..SimulationUpdate::default()
        }
    );
}

#[test]
#[should_panic]
fn store_out_of_bounds() {
    let registers = [0u8; 16];

    let context = SimulationContext::new_with_params(registers, false, false);

    assert_eq!(
        store::register_constant(&context, 0, 1024).unwrap(),
        SimulationUpdate {
            registers: registers,
            carry: false,
            zero: false,
            pc: 1,
            ..SimulationUpdate::default()
        }
    );
}

#[test]
fn jump() {
    let context = SimulationContext::new_with_params([0u8; 16], false, false);

    assert_eq!(
        jump::address(&context, 25, None).unwrap(),
        SimulationUpdate {
            registers: [0u8; 16],
            carry: false,
            zero: false,
            pc: 25,
            ..SimulationUpdate::default()
        }
    );
}

#[test]
fn jump_non_zero_valid() {
    let context = SimulationContext::new_with_params([0u8; 16], false, false);

    assert_eq!(
        jump::address(&context, 25, Some(ConditionType::IfNonZero)).unwrap(),
        SimulationUpdate {
            registers: [0u8; 16],
            carry: false,
            zero: false,
            pc: 25,
            ..SimulationUpdate::default()
        }
    );
}

#[test]
fn jump_non_zero_invalid() {
    let context = SimulationContext::new_with_params([0u8; 16], true, false);

    assert_eq!(
        jump::address(&context, 25, Some(ConditionType::IfNonZero)).unwrap(),
        SimulationUpdate {
            registers: [0u8; 16],
            carry: false,
            zero: true,
            pc: 1,
            ..SimulationUpdate::default()
        }
    );
}

#[test]
fn jump_zero_valid() {
    let context = SimulationContext::new_with_params([0u8; 16], true, false);

    assert_eq!(
        jump::address(&context, 25, Some(ConditionType::IfZero)).unwrap(),
        SimulationUpdate {
            registers: [0u8; 16],
            carry: false,
            zero: true,
            pc: 25,
            ..SimulationUpdate::default()
        }
    );
}

#[test]
fn jump_zero_invalid() {
    let context = SimulationContext::new_with_params([0u8; 16], false, false);

    assert_eq!(
        jump::address(&context, 25, Some(ConditionType::IfZero)).unwrap(),
        SimulationUpdate {
            registers: [0u8; 16],
            carry: false,
            zero: false,
            pc: 1,
            ..SimulationUpdate::default()
        }
    );
}

#[test]
fn jump_carry_valid() {
    let context = SimulationContext::new_with_params([0u8; 16], false, true);

    assert_eq!(
        jump::address(&context, 25, Some(ConditionType::IfCarry)).unwrap(),
        SimulationUpdate {
            registers: [0u8; 16],
            carry: true,
            zero: false,
            pc: 25,
            ..SimulationUpdate::default()
        }
    );
}

#[test]
fn jump_carry_invalid() {
    let context = SimulationContext::new_with_params([0u8; 16], false, false);

    assert_eq!(
        jump::address(&context, 25, Some(ConditionType::IfCarry)).unwrap(),
        SimulationUpdate {
            registers: [0u8; 16],
            carry: false,
            zero: false,
            pc: 1,
            ..SimulationUpdate::default()
        }
    );
}

#[test]
fn jump_non_carry_valid() {
    let context = SimulationContext::new_with_params([0u8; 16], false, false);

    assert_eq!(
        jump::address(&context, 25, Some(ConditionType::IfNonCarry)).unwrap(),
        SimulationUpdate {
            registers: [0u8; 16],
            carry: false,
            zero: false,
            pc: 25,
            ..SimulationUpdate::default()
        }
    );
}

#[test]
fn jump_non_carry_invalid() {
    let context = SimulationContext::new_with_params([0u8; 16], true, true);

    assert_eq!(
        jump::address(&context, 25, Some(ConditionType::IfNonCarry)).unwrap(),
        SimulationUpdate {
            registers: [0u8; 16],
            carry: true,
            zero: true,
            pc: 1,
            ..SimulationUpdate::default()
        }
    );
}

#[test]
#[should_panic]
fn jump_invalid() {
    let context = SimulationContext::new_with_params([0u8; 16], false, false);

    assert_eq!(
        jump::address(&context, 1025, None).unwrap(),
        SimulationUpdate {
            registers: [0u8; 16],
            carry: false,
            zero: false,
            pc: 1025,
            ..SimulationUpdate::default()
        }
    );
}

#[test]
fn call() {
    let context = SimulationContext::new_with_params([0u8; 16], false, false);

    assert_eq!(
        call::address(&context, 25, None).unwrap(),
        SimulationUpdate {
            registers: [0u8; 16],
            carry: false,
            zero: false,
            pc: 25,
            call_addr: Some(1),
            ..SimulationUpdate::default()
        }
    );
}

#[test]
fn call_non_zero_valid() {
    let context = SimulationContext::new_with_params([0u8; 16], false, false);

    assert_eq!(
        call::address(&context, 25, Some(ConditionType::IfNonZero)).unwrap(),
        SimulationUpdate {
            registers: [0u8; 16],
            carry: false,
            zero: false,
            pc: 25,
            call_addr: Some(1),
            ..SimulationUpdate::default()
        }
    );
}

#[test]
fn call_non_zero_invalid() {
    let context = SimulationContext::new_with_params([0u8; 16], true, false);

    assert_eq!(
        call::address(&context, 25, Some(ConditionType::IfNonZero)).unwrap(),
        SimulationUpdate {
            registers: [0u8; 16],
            carry: false,
            zero: true,
            pc: 1,
            call_addr: None,
            ..SimulationUpdate::default()
        }
    );
}

#[test]
fn call_zero_valid() {
    let context = SimulationContext::new_with_params([0u8; 16], true, false);

    assert_eq!(
        call::address(&context, 25, Some(ConditionType::IfZero)).unwrap(),
        SimulationUpdate {
            registers: [0u8; 16],
            carry: false,
            zero: true,
            pc: 25,
            call_addr: Some(1),
            ..SimulationUpdate::default()
        }
    );
}

#[test]
fn call_zero_invalid() {
    let context = SimulationContext::new_with_params([0u8; 16], false, false);

    assert_eq!(
        call::address(&context, 25, Some(ConditionType::IfZero)).unwrap(),
        SimulationUpdate {
            registers: [0u8; 16],
            carry: false,
            zero: false,
            pc: 1,
            call_addr: None,
            ..SimulationUpdate::default()
        }
    );
}

#[test]
fn call_carry_valid() {
    let context = SimulationContext::new_with_params([0u8; 16], false, true);

    assert_eq!(
        call::address(&context, 25, Some(ConditionType::IfCarry)).unwrap(),
        SimulationUpdate {
            registers: [0u8; 16],
            carry: true,
            zero: false,
            pc: 25,
            call_addr: Some(1),
            ..SimulationUpdate::default()
        }
    );
}

#[test]
fn call_carry_invalid() {
    let context = SimulationContext::new_with_params([0u8; 16], false, false);

    assert_eq!(
        call::address(&context, 25, Some(ConditionType::IfCarry)).unwrap(),
        SimulationUpdate {
            registers: [0u8; 16],
            carry: false,
            zero: false,
            pc: 1,
            call_addr: None,
            ..SimulationUpdate::default()
        }
    );
}

#[test]
fn call_non_carry_valid() {
    let context = SimulationContext::new_with_params([0u8; 16], false, false);

    assert_eq!(
        call::address(&context, 25, Some(ConditionType::IfNonCarry)).unwrap(),
        SimulationUpdate {
            registers: [0u8; 16],
            carry: false,
            zero: false,
            pc: 25,
            call_addr: Some(1),
            ..SimulationUpdate::default()
        }
    );
}

#[test]
fn call_non_carry_invalid() {
    let context = SimulationContext::new_with_params([0u8; 16], true, true);

    assert_eq!(
        call::address(&context, 25, Some(ConditionType::IfNonCarry)).unwrap(),
        SimulationUpdate {
            registers: [0u8; 16],
            carry: true,
            zero: true,
            pc: 1,
            call_addr: None,
            ..SimulationUpdate::default()
        }
    );
}

#[test]
#[should_panic]
fn call_invalid() {
    let context = SimulationContext::new_with_params([0u8; 16], false, false);

    assert_eq!(
        call::address(&context, 1025, None).unwrap(),
        SimulationUpdate {
            registers: [0u8; 16],
            carry: false,
            zero: false,
            pc: 1025,
            ..SimulationUpdate::default()
        }
    );
}

#[test]
fn return_unconditional() {
    let mut context = SimulationContext::new_with_params([0u8; 16], false, false);

    context.add_to_call_stack_unrestricted(1);

    assert_eq!(
        ret::default(&context, None).unwrap(),
        SimulationUpdate {
            registers: [0u8; 16],
            carry: false,
            zero: false,
            ret_addr: true,
            pc: 1,
            ..SimulationUpdate::default()
        }
    );
}

#[test]
fn return_non_zero_valid() {
    let mut context = SimulationContext::new_with_params([0u8; 16], false, false);

    context.add_to_call_stack_unrestricted(1);

    assert_eq!(
        ret::default(&context, Some(ConditionType::IfNonZero)).unwrap(),
        SimulationUpdate {
            registers: [0u8; 16],
            carry: false,
            zero: false,
            ret_addr: true,
            pc: 1,
            ..SimulationUpdate::default()
        }
    );
}

#[test]
fn return_non_zero_invalid() {
    let mut context = SimulationContext::new_with_params([0u8; 16], true, false);

    context.add_to_call_stack_unrestricted(1);

    assert_eq!(
        ret::default(&context, Some(ConditionType::IfNonZero)).unwrap(),
        SimulationUpdate {
            registers: [0u8; 16],
            carry: false,
            zero: true,
            ret_addr: false,
            pc: 1,
            ..SimulationUpdate::default()
        }
    );
}

#[test]
fn return_zero_valid() {
    let mut context = SimulationContext::new_with_params([0u8; 16], true, false);

    context.add_to_call_stack_unrestricted(1);

    assert_eq!(
        ret::default(&context, Some(ConditionType::IfZero)).unwrap(),
        SimulationUpdate {
            registers: [0u8; 16],
            carry: false,
            zero: true,
            ret_addr: true,
            pc: 1,
            ..SimulationUpdate::default()
        }
    );
}

#[test]
fn return_zero_invalid() {
    let mut context = SimulationContext::new_with_params([0u8; 16], false, false);

    context.add_to_call_stack_unrestricted(1);

    assert_eq!(
        ret::default(&context, Some(ConditionType::IfZero)).unwrap(),
        SimulationUpdate {
            registers: [0u8; 16],
            carry: false,
            zero: false,
            ret_addr: false,
            pc: 1,
            ..SimulationUpdate::default()
        }
    );
}

#[test]
fn return_non_carry_valid() {
    let mut context = SimulationContext::new_with_params([0u8; 16], false, false);

    context.add_to_call_stack_unrestricted(1);

    assert_eq!(
        ret::default(&context, Some(ConditionType::IfNonCarry)).unwrap(),
        SimulationUpdate {
            registers: [0u8; 16],
            carry: false,
            zero: false,
            ret_addr: true,
            pc: 1,
            ..SimulationUpdate::default()
        }
    );
}

#[test]
fn return_non_carry_invalid() {
    let mut context = SimulationContext::new_with_params([0u8; 16], false, true);

    context.add_to_call_stack_unrestricted(1);

    assert_eq!(
        ret::default(&context, Some(ConditionType::IfNonCarry)).unwrap(),
        SimulationUpdate {
            registers: [0u8; 16],
            carry: true,
            zero: false,
            ret_addr: false,
            pc: 1,
            ..SimulationUpdate::default()
        }
    );
}

#[test]
fn return_carry_valid() {
    let mut context = SimulationContext::new_with_params([0u8; 16], false, true);

    context.add_to_call_stack_unrestricted(1);

    assert_eq!(
        ret::default(&context, Some(ConditionType::IfCarry)).unwrap(),
        SimulationUpdate {
            registers: [0u8; 16],
            carry: true,
            zero: false,
            ret_addr: true,
            pc: 1,
            ..SimulationUpdate::default()
        }
    );
}

#[test]
fn return_carry_invalid() {
    let mut context = SimulationContext::new_with_params([0u8; 16], false, false);

    context.add_to_call_stack_unrestricted(1);

    assert_eq!(
        ret::default(&context, Some(ConditionType::IfCarry)).unwrap(),
        SimulationUpdate {
            registers: [0u8; 16],
            carry: false,
            zero: false,
            ret_addr: false,
            pc: 1,
            ..SimulationUpdate::default()
        }
    );
}
