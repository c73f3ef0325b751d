//! The machine as a mathematical model: what each instruction does and what a step is, with the properties the engine keeps.
use vstd::prelude::*;
use crate::helpers::{even_ones, ones, ShiftMode};
use crate::parser::{instruction_wf, Instruction};
use crate::tokenizer::ConditionType;

verus! {

/// Largest program address: the program counter has ten bits.
pub const MAX_ADDRESS: u32 = 0x3FF;

/// Number of instruction slots.
pub const PROGRAM_MEMORY_SIZE: usize = 1024;

/// Number of scratch-pad bytes.
pub const SCRATCH_PAD_MEMORY_SIZE: usize = 64;

/// Number of return addresses the call stack holds.
pub const CALL_STACK_CAPACITY: usize = 30;

/// A move between the scratch pad and the registers.
#[derive(Debug, Clone, Copy, PartialEq, Eq, Structural)]
pub enum MemoryOperation {
    /// Load the byte at the address into the register with the given index.
    Fetch(usize, u8),
    /// Write the byte to the address.
    Store(usize, u8),
}

/// A fatal fault while running a program.
#[derive(Debug, Clone, Copy, PartialEq, Eq, Structural)]
pub enum SimulationError {
    /// A branch target above the largest program address.
    AddressOutOfRange(u32),
    /// An immediate that does not fit in a byte.
    ConstantTooLarge(u32),
    /// A scratch-pad address past the last byte.
    ScratchPadOutOfBounds(u32),
    /// A call with a full call stack.
    CallStackOverflow,
    /// A return with an empty call stack.
    CallStackUnderflow,
    /// An instruction that has no behaviour in this simulator.
    Unsupported,
}

/// The machine as a mathematical value.
pub struct MachineModel {
    pub program: Seq<Option<Instruction>>,
    pub registers: Seq<u8>,
    pub scratch: Seq<u8>,
    pub pc: int,
    pub zero: bool,
    pub carry: bool,
    pub call_stack: Seq<usize>,
}

/// What one instruction asks of the machine.
pub struct UpdateModel {
    pub registers: Seq<u8>,
    pub zero: bool,
    pub carry: bool,
    pub pc: int,
    pub call_addr: Option<usize>,
    pub ret_addr: bool,
    pub memory_op: Option<MemoryOperation>,
}

pub open spec fn machine_wf(m: MachineModel) -> bool {
    &&& m.program.len() == PROGRAM_MEMORY_SIZE
    &&& m.registers.len() == 16
    &&& m.scratch.len() == SCRATCH_PAD_MEMORY_SIZE
    &&& 0 <= m.pc <= MAX_ADDRESS
    &&& m.call_stack.len() <= CALL_STACK_CAPACITY
    &&& forall|k: int| 0 <= k < m.call_stack.len() ==> m.call_stack[k] <= MAX_ADDRESS
    &&& forall|a: int|
        0 <= a < m.program.len() && #[trigger] m.program[a] is Some ==> instruction_wf(
            m.program[a]->Some_0,
        )
}

/// The address after `pc`, wrapping as a ten-bit counter does.
pub open spec fn next_address(pc: int) -> int {
    (pc + 1) % 1024
}

/// The update of an instruction that changes nothing but the program counter.
pub open spec fn default_update(s: MachineModel) -> UpdateModel {
    UpdateModel {
        registers: s.registers,
        zero: s.zero,
        carry: s.carry,
        pc: next_address(s.pc),
        call_addr: None,
        ret_addr: false,
        memory_op: None,
    }
}

pub open spec fn carry_in(s: MachineModel) -> int {
    if s.carry {
        1
    } else {
        0
    }
}

pub open spec fn reg(s: MachineModel, r: u8) -> int {
    s.registers[r as int] as int
}

/// `lhs := lhs + b + cin`, carry on overflow of the byte.
pub open spec fn add_update(s: MachineModel, lhs: u8, b: int, cin: int) -> UpdateModel {
    let sum = reg(s, lhs) + b + cin;
    UpdateModel {
        registers: s.registers.update(lhs as int, (sum % 256) as u8),
        zero: sum % 256 == 0,
        carry: sum > 255,
        ..default_update(s)
    }
}

/// `lhs := lhs - b - cin`, carry on borrow.
pub open spec fn sub_update(s: MachineModel, lhs: u8, b: int, cin: int) -> UpdateModel {
    let diff = reg(s, lhs) - b - cin;
    UpdateModel {
        registers: s.registers.update(lhs as int, (diff % 256) as u8),
        zero: diff % 256 == 0,
        carry: diff < 0,
        ..default_update(s)
    }
}

/// Flags of `lhs - b`; registers unchanged.
pub open spec fn compare_update(s: MachineModel, lhs: u8, b: int) -> UpdateModel {
    UpdateModel { zero: reg(s, lhs) == b, carry: reg(s, lhs) < b, ..default_update(s) }
}

/// Flags of `lhs - b - carry`; registers unchanged.
pub open spec fn compare_carry_update(s: MachineModel, lhs: u8, b: int) -> UpdateModel {
    UpdateModel {
        zero: reg(s, lhs) == b && !s.carry,
        carry: reg(s, lhs) - b - carry_in(s) < 0,
        ..default_update(s)
    }
}

/// `lhs := result` for a bitwise operation: carry cleared.
pub open spec fn logic_update(s: MachineModel, lhs: u8, result: u8) -> UpdateModel {
    UpdateModel {
        registers: s.registers.update(lhs as int, result),
        zero: result == 0,
        carry: false,
        ..default_update(s)
    }
}

/// Flags of `lhs & b`: carry when it holds an even number of one bits, zero
/// when it is 0; registers unchanged.
pub open spec fn test_update(s: MachineModel, lhs: u8, b: u8) -> UpdateModel {
    let v = (s.registers[lhs as int] & b) as u8;
    UpdateModel { zero: v == 0, carry: even_ones(v), ..default_update(s) }
}

/// As `test_update`, with the incoming carry counted among the bits: carry when
/// the one bits of `lhs & b` and the carry are even in number; zero when
/// `lhs & b` is 0 and zero was set.
pub open spec fn test_carry_update(s: MachineModel, lhs: u8, b: u8) -> UpdateModel {
    let v = (s.registers[lhs as int] & b) as u8;
    UpdateModel {
        zero: v == 0 && s.zero,
        carry: (ones(v as nat) + carry_in(s)) % 2 == 0,
        ..default_update(s)
    }
}

/// `lhs := v`; flags unchanged.
pub open spec fn load_update(s: MachineModel, lhs: u8, v: u8) -> UpdateModel {
    UpdateModel { registers: s.registers.update(lhs as int, v), ..default_update(s) }
}

/// The bit a left shift brings in at bit 0.
pub open spec fn left_in_bit(a: int, carry: bool, mode: ShiftMode) -> int {
    match mode {
        ShiftMode::Carry => if carry {
            1
        } else {
            0
        },
        ShiftMode::Number(n) => n as int % 2,
        ShiftMode::Repeat => a % 2,
    }
}

/// The bit a right shift brings in at bit 7.
pub open spec fn right_in_bit(a: int, carry: bool, mode: ShiftMode) -> int {
    match mode {
        ShiftMode::Carry => if carry {
            1
        } else {
            0
        },
        ShiftMode::Number(n) => n as int % 2,
        ShiftMode::Repeat => a / 128,
    }
}

/// `r := result`, carry from the bit that left.
pub open spec fn shift_update(s: MachineModel, r: u8, result: int, out_bit: bool) -> UpdateModel {
    UpdateModel {
        registers: s.registers.update(r as int, result as u8),
        zero: result == 0,
        carry: out_bit,
        ..default_update(s)
    }
}

pub open spec fn shift_left_update(s: MachineModel, r: u8, mode: ShiftMode) -> UpdateModel {
    let a = reg(s, r);
    shift_update(s, r, (2 * a) % 256 + left_in_bit(a, s.carry, mode), a >= 128)
}

pub open spec fn shift_right_update(s: MachineModel, r: u8, mode: ShiftMode) -> UpdateModel {
    let a = reg(s, r);
    shift_update(s, r, a / 2 + 128 * right_in_bit(a, s.carry, mode), a % 2 == 1)
}

pub open spec fn rotate_left_update(s: MachineModel, r: u8) -> UpdateModel {
    let a = reg(s, r);
    shift_update(s, r, (2 * a) % 256 + a / 128, a >= 128)
}

pub open spec fn rotate_right_update(s: MachineModel, r: u8) -> UpdateModel {
    let a = reg(s, r);
    shift_update(s, r, a / 2 + 128 * (a % 2), a % 2 == 1)
}

/// Whether the condition holds on the flags; no condition always holds.
pub open spec fn condition_holds(s: MachineModel, condition: Option<ConditionType>) -> bool {
    match condition {
        None => true,
        Some(ConditionType::IfZero) => s.zero,
        Some(ConditionType::IfNonZero) => !s.zero,
        Some(ConditionType::IfCarry) => s.carry,
        Some(ConditionType::IfNonCarry) => !s.carry,
    }
}

pub open spec fn jump_effect(s: MachineModel, address: u32, condition: Option<ConditionType>) -> Result<
    UpdateModel,
    SimulationError,
> {
    if address > MAX_ADDRESS {
        Err(SimulationError::AddressOutOfRange(address))
    } else if condition_holds(s, condition) {
        Ok(UpdateModel { pc: address as int, ..default_update(s) })
    } else {
        Ok(default_update(s))
    }
}

pub open spec fn call_effect(s: MachineModel, address: u32, condition: Option<ConditionType>) -> Result<
    UpdateModel,
    SimulationError,
> {
    if address > MAX_ADDRESS {
        Err(SimulationError::AddressOutOfRange(address))
    } else if !condition_holds(s, condition) {
        Ok(default_update(s))
    } else if s.call_stack.len() >= CALL_STACK_CAPACITY {
        Err(SimulationError::CallStackOverflow)
    } else {
        Ok(
            UpdateModel {
                pc: address as int,
                call_addr: Some(next_address(s.pc) as usize),
                ..default_update(s)
            },
        )
    }
}

pub open spec fn return_effect(s: MachineModel, condition: Option<ConditionType>) -> Result<
    UpdateModel,
    SimulationError,
> {
    if !condition_holds(s, condition) {
        Ok(default_update(s))
    } else if s.call_stack.len() == 0 {
        Err(SimulationError::CallStackUnderflow)
    } else {
        Ok(UpdateModel { ret_addr: true, ..default_update(s) })
    }
}

/// The ten-bit address held by a register pair: low nibble of `first`, then `second`.
pub open spec fn pair_address(s: MachineModel, first: u8, second: u8) -> int {
    (reg(s, first) % 16) * 256 + reg(s, second)
}

pub open spec fn jump_at_effect(s: MachineModel, first: u8, second: u8) -> Result<
    UpdateModel,
    SimulationError,
> {
    let target = pair_address(s, first, second);
    if target > MAX_ADDRESS {
        Err(SimulationError::AddressOutOfRange(target as u32))
    } else {
        Ok(UpdateModel { pc: target, ..default_update(s) })
    }
}

pub open spec fn call_at_effect(s: MachineModel, first: u8, second: u8) -> Result<
    UpdateModel,
    SimulationError,
> {
    let target = pair_address(s, first, second);
    if target > MAX_ADDRESS {
        Err(SimulationError::AddressOutOfRange(target as u32))
    } else if s.call_stack.len() >= CALL_STACK_CAPACITY {
        Err(SimulationError::CallStackOverflow)
    } else {
        Ok(
            UpdateModel {
                pc: target,
                call_addr: Some(next_address(s.pc) as usize),
                ..default_update(s)
            },
        )
    }
}

pub open spec fn store_effect(s: MachineModel, lhs: u8, address: u32) -> Result<
    UpdateModel,
    SimulationError,
> {
    if address >= SCRATCH_PAD_MEMORY_SIZE {
        Err(SimulationError::ScratchPadOutOfBounds(address))
    } else {
        Ok(
            UpdateModel {
                memory_op: Some(
                    MemoryOperation::Store(address as usize, s.registers[lhs as int]),
                ),
                ..default_update(s)
            },
        )
    }
}

pub open spec fn fetch_effect(s: MachineModel, lhs: u8, address: u32) -> Result<
    UpdateModel,
    SimulationError,
> {
    if address >= SCRATCH_PAD_MEMORY_SIZE {
        Err(SimulationError::ScratchPadOutOfBounds(address))
    } else {
        Ok(
            UpdateModel {
                memory_op: Some(MemoryOperation::Fetch(address as usize, lhs)),
                ..default_update(s)
            },
        )
    }
}

/// An immediate operand: a byte, or the error that names it.
pub open spec fn with_constant(
    rhs: u32,
    u: UpdateModel,
) -> Result<UpdateModel, SimulationError> {
    if rhs > 255 {
        Err(SimulationError::ConstantTooLarge(rhs))
    } else {
        Ok(u)
    }
}

/// What executing `i` on `s` asks of the machine.
pub open spec fn effect(s: MachineModel, i: Instruction) -> Result<UpdateModel, SimulationError> {
    match i {
        Instruction::Load { lhs, rhs } => Ok(load_update(s, lhs, s.registers[rhs as int])),
        Instruction::LoadConstant { lhs, rhs } => with_constant(rhs, load_update(s, lhs, rhs as u8)),
        Instruction::And { lhs, rhs } => Ok(
            logic_update(s, lhs, (s.registers[lhs as int] & s.registers[rhs as int]) as u8),
        ),
        Instruction::AndConstant { lhs, rhs } => with_constant(
            rhs,
            logic_update(s, lhs, (s.registers[lhs as int] & (rhs as u8)) as u8),
        ),
        Instruction::Or { lhs, rhs } => Ok(
            logic_update(s, lhs, (s.registers[lhs as int] | s.registers[rhs as int]) as u8),
        ),
        Instruction::OrConstant { lhs, rhs } => with_constant(
            rhs,
            logic_update(s, lhs, (s.registers[lhs as int] | (rhs as u8)) as u8),
        ),
        Instruction::Xor { lhs, rhs } => Ok(
            logic_update(s, lhs, (s.registers[lhs as int] ^ s.registers[rhs as int]) as u8),
        ),
        Instruction::XorConstant { lhs, rhs } => with_constant(
            rhs,
            logic_update(s, lhs, (s.registers[lhs as int] ^ (rhs as u8)) as u8),
        ),
        Instruction::Test { lhs, rhs } => Ok(test_update(s, lhs, s.registers[rhs as int])),
        Instruction::TestConstant { lhs, rhs } => with_constant(
            rhs,
            test_update(s, lhs, rhs as u8),
        ),
        Instruction::TestCarry { lhs, rhs } => Ok(
            test_carry_update(s, lhs, s.registers[rhs as int]),
        ),
        Instruction::TestCarryConstant { lhs, rhs } => with_constant(
            rhs,
            test_carry_update(s, lhs, rhs as u8),
        ),
        Instruction::Add { lhs, rhs } => Ok(add_update(s, lhs, reg(s, rhs), 0)),
        Instruction::AddConstant { lhs, rhs } => with_constant(
            rhs,
            add_update(s, lhs, rhs as int, 0),
        ),
        Instruction::AddCarry { lhs, rhs } => Ok(add_update(s, lhs, reg(s, rhs), carry_in(s))),
        Instruction::AddCarryConstant { lhs, rhs } => with_constant(
            rhs,
            add_update(s, lhs, rhs as int, carry_in(s)),
        ),
        Instruction::Subtract { lhs, rhs } => Ok(sub_update(s, lhs, reg(s, rhs), 0)),
        Instruction::SubtractConstant { lhs, rhs } => with_constant(
            rhs,
            sub_update(s, lhs, rhs as int, 0),
        ),
        Instruction::SubtractCarry { lhs, rhs } => Ok(
            sub_update(s, lhs, reg(s, rhs), carry_in(s)),
        ),
        Instruction::SubtractCarryConstant { lhs, rhs } => with_constant(
            rhs,
            sub_update(s, lhs, rhs as int, carry_in(s)),
        ),
        Instruction::Compare { lhs, rhs } => Ok(compare_update(s, lhs, reg(s, rhs))),
        Instruction::CompareConstant { lhs, rhs } => with_constant(
            rhs,
            compare_update(s, lhs, rhs as int),
        ),
        Instruction::CompareCarry { lhs, rhs } => Ok(compare_carry_update(s, lhs, reg(s, rhs))),
        Instruction::CompareCarryConstant { lhs, rhs } => with_constant(
            rhs,
            compare_carry_update(s, lhs, rhs as int),
        ),
        Instruction::FetchConstant { lhs, rhs } => fetch_effect(s, lhs, rhs),
        Instruction::FetchDeref { lhs, rhs } => fetch_effect(s, lhs, s.registers[rhs as int] as u32),
        Instruction::StoreConstant { lhs, rhs } => store_effect(s, lhs, rhs),
        Instruction::StoreDeref { lhs, rhs } => store_effect(s, lhs, s.registers[rhs as int] as u32),
        Instruction::Jump { address } => jump_effect(s, address, None),
        Instruction::JumpConditional { condition, address } => jump_effect(
            s,
            address,
            Some(condition),
        ),
        Instruction::JumpAt { first, second } => jump_at_effect(s, first, second),
        Instruction::Call { address } => call_effect(s, address, None),
        Instruction::CallConditional { condition, address } => call_effect(
            s,
            address,
            Some(condition),
        ),
        Instruction::CallAt { first, second } => call_at_effect(s, first, second),
        Instruction::Return => return_effect(s, None),
        Instruction::ReturnCondition { condition } => return_effect(s, Some(condition)),
        Instruction::ShiftLeftZero { register } => Ok(
            shift_left_update(s, register, ShiftMode::Number(0)),
        ),
        Instruction::ShiftLeftOne { register } => Ok(
            shift_left_update(s, register, ShiftMode::Number(1)),
        ),
        Instruction::ShiftLeftCarry { register } => Ok(
            shift_left_update(s, register, ShiftMode::Carry),
        ),
        Instruction::ShiftLeftArth { register } => Ok(
            shift_left_update(s, register, ShiftMode::Repeat),
        ),
        Instruction::ShiftRightZero { register } => Ok(
            shift_right_update(s, register, ShiftMode::Number(0)),
        ),
        Instruction::ShiftRightOne { register } => Ok(
            shift_right_update(s, register, ShiftMode::Number(1)),
        ),
        Instruction::ShiftRightCarry { register } => Ok(
            shift_right_update(s, register, ShiftMode::Carry),
        ),
        Instruction::ShiftRightArth { register } => Ok(
            shift_right_update(s, register, ShiftMode::Repeat),
        ),
        Instruction::RotateLeft { register } => Ok(rotate_left_update(s, register)),
        Instruction::RotateRight { register } => Ok(rotate_right_update(s, register)),
        _ => Err(SimulationError::Unsupported),
    }
}

/// An update that the machine can carry out from `s`.
pub open spec fn update_valid(s: MachineModel, u: UpdateModel) -> bool {
    &&& u.registers.len() == 16
    &&& 0 <= u.pc <= MAX_ADDRESS
    &&& u.ret_addr ==> s.call_stack.len() > 0 && u.call_addr is None
    &&& u.call_addr matches Some(a) ==> a <= MAX_ADDRESS && s.call_stack.len()
        < CALL_STACK_CAPACITY
    &&& match u.memory_op {
        Some(MemoryOperation::Store(a, _)) => a < SCRATCH_PAD_MEMORY_SIZE,
        Some(MemoryOperation::Fetch(a, r)) => a < SCRATCH_PAD_MEMORY_SIZE && r < 16,
        None => true,
    }
}

/// The machine after carrying out `u`: registers and flags are overwritten, the
/// program counter moves, a return pops the call stack into it, a call pushes
/// its return address, and a memory operation runs last.
pub open spec fn apply(s: MachineModel, u: UpdateModel) -> MachineModel {
    let stack1 = if u.ret_addr {
        s.call_stack.drop_last()
    } else {
        s.call_stack
    };
    let pc = if u.ret_addr {
        s.call_stack.last() as int
    } else {
        u.pc
    };
    let stack2 = match u.call_addr {
        Some(a) => stack1.push(a),
        None => stack1,
    };
    let registers = match u.memory_op {
        Some(MemoryOperation::Fetch(a, r)) => u.registers.update(r as int, s.scratch[a as int]),
        _ => u.registers,
    };
    let scratch = match u.memory_op {
        Some(MemoryOperation::Store(a, v)) => s.scratch.update(a as int, v),
        _ => s.scratch,
    };
    MachineModel {
        program: s.program,
        registers,
        scratch,
        pc,
        zero: u.zero,
        carry: u.carry,
        call_stack: stack2,
    }
}

/// Whether a step ran an instruction or found an empty slot.
#[derive(Debug, Clone, Copy, PartialEq, Eq, Structural)]
pub enum StepOutcome {
    Halted,
    Executed,
}

/// One fetch-decode-execute step.
pub open spec fn step_spec(s: MachineModel) -> Result<(StepOutcome, MachineModel), SimulationError> {
    match s.program[s.pc] {
        None => Ok((StepOutcome::Halted, s)),
        Some(i) => match effect(s, i) {
            Err(e) => Err(e),
            Ok(u) => Ok((StepOutcome::Executed, apply(s, u))),
        },
    }
}

/// Up to `n` steps: stops at a halt or at the first fault, which leaves the
/// machine as the faulting step found it.
pub open spec fn run_spec(s: MachineModel, n: nat) -> Result<
    (StepOutcome, MachineModel),
    (SimulationError, MachineModel),
>
    decreases n,
{
    if n == 0 {
        Ok((StepOutcome::Executed, s))
    } else {
        match step_spec(s) {
            Err(e) => Err((e, s)),
            Ok((StepOutcome::Halted, t)) => Ok((StepOutcome::Halted, t)),
            Ok((StepOutcome::Executed, t)) => run_spec(t, (n - 1) as nat),
        }
    }
}

/// Every update an instruction asks for can be carried out.
pub proof fn lemma_effect_valid(s: MachineModel, i: Instruction)
    requires
        machine_wf(s),
        instruction_wf(i),
    ensures
        effect(s, i) matches Ok(u) ==> update_valid(s, u),
{
    assert(0 <= next_address(s.pc) <= MAX_ADDRESS);
    assert(default_update(s).registers.len() == 16);
    match i {
        Instruction::Load { .. } | Instruction::LoadConstant { .. } | Instruction::And { .. }
        | Instruction::AndConstant { .. } | Instruction::Or { .. } | Instruction::OrConstant {
            ..
        } | Instruction::Xor { .. } | Instruction::XorConstant { .. } => {},
        Instruction::Add { .. } | Instruction::AddConstant { .. } | Instruction::AddCarry { .. }
        | Instruction::AddCarryConstant { .. } => {},
        Instruction::Subtract { .. } | Instruction::SubtractConstant { .. }
        | Instruction::SubtractCarry { .. } | Instruction::SubtractCarryConstant { .. } => {},
        Instruction::ShiftLeftZero { .. } | Instruction::ShiftLeftOne { .. }
        | Instruction::ShiftLeftCarry { .. } | Instruction::ShiftLeftArth { .. } => {},
        Instruction::ShiftRightZero { .. } | Instruction::ShiftRightOne { .. }
        | Instruction::ShiftRightCarry { .. } | Instruction::ShiftRightArth { .. } => {},
        _ => {},
    }
}

/// Carrying out a valid update keeps the machine well formed.
pub proof fn lemma_apply_wf(s: MachineModel, u: UpdateModel)
    requires
        machine_wf(s),
        update_valid(s, u),
    ensures
        machine_wf(apply(s, u)),
{
    let t = apply(s, u);
    assert forall|k: int| 0 <= k < t.call_stack.len() implies t.call_stack[k] <= MAX_ADDRESS by {
        if u.ret_addr {
            assert(s.call_stack.drop_last()[k] == s.call_stack[k]);
        }
    }
}

/// The operands of an arithmetic instruction: target register, second operand,
/// carry taken in, and whether it subtracts.
pub open spec fn arithmetic_operands(s: MachineModel, i: Instruction) -> Option<
    (u8, int, int, bool),
> {
    match i {
        Instruction::Add { lhs, rhs } => Some((lhs, reg(s, rhs), 0, false)),
        Instruction::AddConstant { lhs, rhs } => Some((lhs, rhs as int, 0, false)),
        Instruction::AddCarry { lhs, rhs } => Some((lhs, reg(s, rhs), carry_in(s), false)),
        Instruction::AddCarryConstant { lhs, rhs } => Some((lhs, rhs as int, carry_in(s), false)),
        Instruction::Subtract { lhs, rhs } => Some((lhs, reg(s, rhs), 0, true)),
        Instruction::SubtractConstant { lhs, rhs } => Some((lhs, rhs as int, 0, true)),
        Instruction::SubtractCarry { lhs, rhs } => Some((lhs, reg(s, rhs), carry_in(s), true)),
        Instruction::SubtractCarryConstant { lhs, rhs } => Some(
            (lhs, rhs as int, carry_in(s), true),
        ),
        _ => None,
    }
}

/// Every arithmetic instruction that runs leaves in its target register the
/// exact sum or difference reduced modulo 256, and sets carry exactly when that
/// exact value lies outside 0..=255.
pub proof fn lemma_arithmetic_modular(s: MachineModel, i: Instruction)
    requires
        machine_wf(s),
        instruction_wf(i),
    ensures
        arithmetic_operands(s, i) matches Some((lhs, b, cin, subtracts)) ==> (effect(s, i) matches Ok(
            u,
        ) ==> {
            let exact = if subtracts {
                reg(s, lhs) - b - cin
            } else {
                reg(s, lhs) + b + cin
            };
            &&& u.registers[lhs as int] == exact % 256
            &&& u.carry == (exact < 0 || exact > 255)
        }),
{
}

/// A step from a well-formed machine keeps the program counter within the ten
/// address bits and the call stack within its 30 entries.
pub proof fn lemma_step_bounds(s: MachineModel)
    requires
        machine_wf(s),
    ensures
        step_spec(s) matches Ok((_, t)) ==> 0 <= t.pc <= MAX_ADDRESS && t.call_stack.len()
            <= CALL_STACK_CAPACITY,
        step_spec(s) matches Ok((_, t)) ==> machine_wf(t),
{
    if let Some(i) = s.program[s.pc] {
        lemma_effect_valid(s, i);
        if let Ok(u) = effect(s, i) {
            lemma_apply_wf(s, u);
        }
    }
}

/// Whether `i` takes an immediate byte operand.
pub open spec fn immediate_operand(i: Instruction) -> Option<u32> {
    match i {
        Instruction::AddConstant { rhs, .. }
        | Instruction::AddCarryConstant { rhs, .. }
        | Instruction::AndConstant { rhs, .. }
        | Instruction::CompareConstant { rhs, .. }
        | Instruction::CompareCarryConstant { rhs, .. }
        | Instruction::LoadConstant { rhs, .. }
        | Instruction::OrConstant { rhs, .. }
        | Instruction::SubtractConstant { rhs, .. }
        | Instruction::SubtractCarryConstant { rhs, .. }
        | Instruction::TestConstant { rhs, .. }
        | Instruction::TestCarryConstant { rhs, .. }
        | Instruction::XorConstant { rhs, .. } => Some(rhs),
        _ => None,
    }
}

/// An instruction with an immediate runs exactly when the immediate fits in a byte.
pub proof fn lemma_immediate_accepted(s: MachineModel, i: Instruction)
    requires
        machine_wf(s),
        instruction_wf(i),
    ensures
        immediate_operand(i) matches Some(k) ==> (effect(s, i) is Ok <==> k <= 255),
{
}

/// After `LOAD x, k` with `k` a byte, register `x` holds `k`.
pub proof fn lemma_load_then_read(s: MachineModel, x: u8, k: u32)
    requires
        machine_wf(s),
        x < 16,
        k <= 255,
    ensures
        effect(s, Instruction::LoadConstant { lhs: x, rhs: k }) matches Ok(u) && apply(
            s,
            u,
        ).registers[x as int] == k,
{
}

/// `XOR x, x` clears register `x` and sets zero, whatever `x` held.
pub proof fn lemma_xor_self(s: MachineModel, x: u8)
    requires
        machine_wf(s),
        x < 16,
    ensures
        effect(s, Instruction::Xor { lhs: x, rhs: x }) matches Ok(u) && u.registers[x as int]
            == 0 && u.zero && apply(s, u).registers[x as int] == 0,
{
    let a = s.registers[x as int];
    assert((a ^ a) == 0u8) by (bit_vector);
}

/// `TEST x, k` and `TEST x, y` set carry exactly when the operands' bitwise and
/// holds an even number of one bits.
pub proof fn lemma_test_parity(s: MachineModel, x: u8, k: u8, y: u8)
    requires
        machine_wf(s),
        x < 16,
        y < 16,
    ensures
        effect(s, Instruction::TestConstant { lhs: x, rhs: k as u32 }) matches Ok(u) && u.carry
            == (ones((s.registers[x as int] & k) as nat) % 2 == 0),
        effect(s, Instruction::Test { lhs: x, rhs: y }) matches Ok(u) && u.carry == (ones(
            (s.registers[x as int] & s.registers[y as int]) as nat,
        ) % 2 == 0),
{
}

/// A `CALL` whose target is a `RETURN`, with room on the call stack, comes back
/// to the address after the call with the call stack as it was.
pub proof fn lemma_call_then_return(s: MachineModel, target: u32)
    requires
        machine_wf(s),
        s.pc < MAX_ADDRESS,
        s.program[s.pc] == Some(Instruction::Call { address: target }),
        target <= MAX_ADDRESS,
        s.program[target as int] == Some(Instruction::Return),
        s.call_stack.len() < CALL_STACK_CAPACITY,
    ensures
        step_spec(s) matches Ok((StepOutcome::Executed, t)) && step_spec(t) matches Ok(
            (StepOutcome::Executed, w),
        ) && w.pc == s.pc + 1 && w.call_stack == s.call_stack,
{
    let t = apply(s, effect(s, Instruction::Call { address: target })->Ok_0);
    assert(t.call_stack.drop_last() =~= s.call_stack);
}

} // verus!
