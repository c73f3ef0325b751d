//! The machine state and the fetch-decode-execute engine.
use vstd::prelude::*;
use crate::helpers::ShiftMode;
use crate::instructions::{
    add, add_carry, and, call, compare, compare_carry, fetch, jump, load, or, ret, rotate_left,
    rotate_right, shift_left, shift_right, store, subtract, subtract_carry, test_carry, xor,
};
use crate::parser::{instruction_wf, Instruction};
use crate::tokenizer::ConditionType;
use crate::semantics::{
    apply, condition_holds, default_update, effect, lemma_apply_wf, lemma_effect_valid, machine_wf, run_spec,
    step_spec, update_valid, MachineModel, MemoryOperation, SimulationError, StepOutcome,
    UpdateModel, CALL_STACK_CAPACITY, MAX_ADDRESS, PROGRAM_MEMORY_SIZE, SCRATCH_PAD_MEMORY_SIZE,
};

verus! {

/// What one instruction asks of the machine: the new registers and flags, the
/// next program counter, and the call-stack and scratch-pad work to do.
#[derive(Debug, PartialEq)]
pub struct SimulationUpdate {
    pub registers: [u8; 16],
    pub zero: bool,
    pub carry: bool,
    pub pc: usize,
    pub call_addr: Option<usize>,
    pub ret_addr: bool,
    pub memory_op: Option<MemoryOperation>,
}

impl View for SimulationUpdate {
    type V = UpdateModel;

    open spec fn view(&self) -> UpdateModel {
        UpdateModel {
            registers: self.registers@,
            zero: self.zero,
            carry: self.carry,
            pc: self.pc as int,
            call_addr: self.call_addr,
            ret_addr: self.ret_addr,
            memory_op: self.memory_op,
        }
    }
}

/// The outcome of an instruction handler, as a value of the model.
pub open spec fn outcome(r: Result<SimulationUpdate, SimulationError>) -> Result<
    UpdateModel,
    SimulationError,
> {
    match r {
        Ok(u) => Ok(u@),
        Err(e) => Err(e),
    }
}

impl SimulationUpdate {
    /// The update that only moves to the next instruction.
    pub fn new(ctx: &SimulationContext) -> (r: SimulationUpdate)
        requires
            ctx.wf(),
        ensures
            r@ == default_update(ctx@),
    {
        SimulationUpdate {
            registers: ctx.get_registers(),
            zero: ctx.get_zero_flag(),
            carry: ctx.get_carry_flag(),
            pc: (ctx.get_program_counter() + 1) % PROGRAM_MEMORY_SIZE,
            call_addr: None,
            ret_addr: false,
            memory_op: None,
        }
    }

    /// The update that only moves to `pc`.
    pub fn new_with_pc(ctx: &SimulationContext, pc: usize) -> (r: SimulationUpdate)
        requires
            ctx.wf(),
        ensures
            r@ == (UpdateModel { pc: pc as int, ..default_update(ctx@) }),
    {
        SimulationUpdate {
            registers: ctx.get_registers(),
            zero: ctx.get_zero_flag(),
            carry: ctx.get_carry_flag(),
            call_addr: None,
            ret_addr: false,
            memory_op: None,
            pc,
        }
    }
}

impl Default for SimulationUpdate {
    fn default() -> (r: SimulationUpdate)
        ensures
            r.registers@ == Seq::new(16, |i: int| 0u8),
            !r.zero,
            !r.carry,
            r.pc == 0,
            r.call_addr is None,
            !r.ret_addr,
            r.memory_op is None,
    {
        let r = SimulationUpdate {
            registers: [0u8; 16],
            zero: false,
            carry: false,
            pc: 0,
            call_addr: None,
            ret_addr: false,
            memory_op: None,
        };
        assert(r.registers@ =~= Seq::new(16, |i: int| 0u8));
        r
    }
}

/// The value of register `r`.
pub fn read_register(ctx: &SimulationContext, r: u8) -> (v: u8)
    requires
        r < 16,
    ensures
        v == ctx@.registers[r as int],
{
    ctx.get_register(r as usize).unwrap()
}

/// `u` with register `r` set to `value` and the flags set as given.
pub fn write_result(u: SimulationUpdate, r: u8, value: u8, zero: bool, carry: bool) -> (out:
    SimulationUpdate)
    requires
        r < 16,
    ensures
        out@ == (UpdateModel {
            registers: u@.registers.update(r as int, value),
            zero,
            carry,
            ..u@
        }),
{
    let mut out = u;
    out.registers[r as usize] = value;
    out.zero = zero;
    out.carry = carry;
    assert(out@.registers =~= u@.registers.update(r as int, value));
    out
}

/// Whether `condition` holds on the flags of `ctx`; no condition always holds.
pub fn condition_met(ctx: &SimulationContext, condition: Option<ConditionType>) -> (r: bool)
    ensures
        r == condition_holds(ctx@, condition),
{
    match condition {
        None => true,
        Some(ConditionType::IfNonZero) => !ctx.get_zero_flag(),
        Some(ConditionType::IfZero) => ctx.get_zero_flag(),
        Some(ConditionType::IfNonCarry) => !ctx.get_carry_flag(),
        Some(ConditionType::IfCarry) => ctx.get_carry_flag(),
    }
}

/// The program slots that a list of `(address, instruction)` pairs fills, a
/// later pair overriding an earlier one at the same address.
pub open spec fn place(list: Seq<(usize, Instruction)>) -> Seq<Option<Instruction>>
    decreases list.len(),
{
    if list.len() == 0 {
        Seq::new(PROGRAM_MEMORY_SIZE as nat, |a: int| None)
    } else {
        place(list.drop_last()).update(list.last().0 as int, Some(list.last().1))
    }
}

/// Every pair names a program address and a well-formed instruction.
pub open spec fn program_list_wf(list: Seq<(usize, Instruction)>) -> bool {
    forall|k: int|
        0 <= k < list.len() ==> #[trigger] list[k].0 < PROGRAM_MEMORY_SIZE && instruction_wf(
            list[k].1,
        )
}

proof fn lemma_place(list: Seq<(usize, Instruction)>)
    requires
        program_list_wf(list),
    ensures
        place(list).len() == PROGRAM_MEMORY_SIZE,
        forall|a: int|
            0 <= a < PROGRAM_MEMORY_SIZE && #[trigger] place(list)[a] is Some ==> instruction_wf(
                place(list)[a]->Some_0,
            ),
    decreases list.len(),
{
    if list.len() > 0 {
        lemma_place(list.drop_last());
        assert(list[list.len() - 1].0 < PROGRAM_MEMORY_SIZE);
    }
}

fn empty_program() -> (r: Vec<Option<Instruction>>)
    ensures
        r@ == place(Seq::empty()),
{
    let mut r: Vec<Option<Instruction>> = Vec::new();
    while r.len() < PROGRAM_MEMORY_SIZE
        invariant
            r.len() <= PROGRAM_MEMORY_SIZE,
            forall|a: int| 0 <= a < r.len() ==> r@[a] is None,
        decreases PROGRAM_MEMORY_SIZE - r.len(),
    {
        r.push(None);
    }
    assert(r@ =~= place(Seq::empty()));
    r
}

fn build_program(instructions: Vec<(usize, Instruction)>) -> (r: Vec<Option<Instruction>>)
    requires
        program_list_wf(instructions@),
    ensures
        r@ == place(instructions@),
{
    let mut r = empty_program();
    let mut k: usize = 0;
    while k < instructions.len()
        invariant
            k <= instructions.len(),
            program_list_wf(instructions@),
            r@ == place(instructions@.subrange(0, k as int)),
        decreases instructions.len() - k,
    {
        proof {
            lemma_place(instructions@.subrange(0, k as int));
        }
        let (addr, i) = instructions[k];
        assert(instructions@[k as int].0 < PROGRAM_MEMORY_SIZE);
        r.set(addr, Some(i));
        proof {
            let next = instructions@.subrange(0, k + 1);
            assert(next.drop_last() =~= instructions@.subrange(0, k as int));
        }
        k = k + 1;
    }
    assert(instructions@.subrange(0, instructions.len() as int) =~= instructions@);
    r
}

/// The machine: program store, registers, scratch pad, program counter,
/// flags and call stack.
pub struct SimulationContext {
    instructions: Vec<Option<Instruction>>,
    registers: [u8; 16],
    scratch_memory: [u8; 64],
    pc: usize,
    zero: bool,
    carry: bool,
    call_stack: Vec<usize>,
}

impl View for SimulationContext {
    type V = MachineModel;

    closed spec fn view(&self) -> MachineModel {
        MachineModel {
            program: self.instructions@,
            registers: self.registers@,
            scratch: self.scratch_memory@,
            pc: self.pc as int,
            zero: self.zero,
            carry: self.carry,
            call_stack: self.call_stack@,
        }
    }
}

/// A freshly reset machine holding `program`.
pub open spec fn reset_model(program: Seq<Option<Instruction>>) -> MachineModel {
    MachineModel {
        program,
        registers: Seq::new(16, |i: int| 0u8),
        scratch: Seq::new(SCRATCH_PAD_MEMORY_SIZE as nat, |i: int| 0u8),
        pc: 0,
        zero: false,
        carry: false,
        call_stack: Seq::empty(),
    }
}

impl SimulationContext {
    pub open spec fn wf(&self) -> bool {
        machine_wf(self@)
    }

    /// A reset machine with an empty program.
    pub fn new() -> (r: SimulationContext)
        ensures
            r.wf(),
            r@ == reset_model(place(Seq::empty())),
    {
        let r = SimulationContext {
            instructions: empty_program(),
            registers: [0u8; 16],
            scratch_memory: [0u8; 64],
            pc: 0,
            zero: false,
            carry: false,
            call_stack: Vec::new(),
        };
        assert(r.scratch_memory@ =~= Seq::new(SCRATCH_PAD_MEMORY_SIZE as nat, |i: int| 0u8));
        assert(r.registers@ =~= Seq::new(16, |i: int| 0u8));
        assert(r.call_stack@ =~= Seq::empty());
        assert(r@ =~= reset_model(place(Seq::empty())));
        r
    }

    /// A machine with an empty program and the given registers and flags.
    pub fn new_with_params(registers: [u8; 16], zero: bool, carry: bool) -> (r: SimulationContext)
        ensures
            r.wf(),
            r@ == (MachineModel {
                registers: registers@,
                zero,
                carry,
                ..reset_model(place(Seq::empty()))
            }),
    {
        let r = SimulationContext {
            instructions: empty_program(),
            pc: 0,
            registers,
            scratch_memory: [0u8; 64],
            zero,
            carry,
            call_stack: Vec::new(),
        };
        assert(r.scratch_memory@ =~= Seq::new(SCRATCH_PAD_MEMORY_SIZE as nat, |i: int| 0u8));
        assert(r.call_stack@ =~= Seq::empty());
        assert(r@ =~= (MachineModel {
            registers: registers@,
            zero,
            carry,
            ..reset_model(place(Seq::empty()))
        }));
        r
    }

    /// A reset machine holding the given instructions.
    pub fn new_with_instructions(instructions: Vec<(usize, Instruction)>) -> (r: SimulationContext)
        requires
            program_list_wf(instructions@),
        ensures
            r.wf(),
            r@ == reset_model(place(instructions@)),
    {
        proof {
            lemma_place(instructions@);
        }
        let r = SimulationContext {
            instructions: build_program(instructions),
            registers: [0u8; 16],
            scratch_memory: [0u8; 64],
            pc: 0,
            zero: false,
            carry: false,
            call_stack: Vec::new(),
        };
        assert(r.scratch_memory@ =~= Seq::new(SCRATCH_PAD_MEMORY_SIZE as nat, |i: int| 0u8));
        assert(r.registers@ =~= Seq::new(16, |i: int| 0u8));
        assert(r.call_stack@ =~= Seq::empty());
        assert(r@ =~= reset_model(place(instructions@)));
        r
    }

    /// Replaces the program; registers, flags and stack are kept.
    pub fn initialize_instructions(&mut self, instructions: Vec<(usize, Instruction)>)
        requires
            old(self).wf(),
            program_list_wf(instructions@),
        ensures
            final(self).wf(),
            final(self)@ == (MachineModel { program: place(instructions@), ..old(self)@ }),
    {
        proof {
            lemma_place(instructions@);
        }
        self.instructions = build_program(instructions);
    }

    /// Zeroes registers, scratch pad, flags, program counter and call stack.
    pub fn reset(&mut self)
        requires
            old(self).wf(),
        ensures
            final(self).wf(),
            final(self)@ == reset_model(old(self)@.program),
    {
        self.registers = [0u8; 16];
        self.scratch_memory = [0u8; 64];
        self.zero = false;
        self.carry = false;
        self.pc = 0;
        self.call_stack = Vec::new();
        assert(self.scratch_memory@ =~= Seq::new(SCRATCH_PAD_MEMORY_SIZE as nat, |i: int| 0u8));
        assert(self.registers@ =~= Seq::new(16, |i: int| 0u8));
        assert(self.call_stack@ =~= Seq::empty());
        assert(self@ =~= reset_model(old(self)@.program));
    }

    pub fn get_zero_flag(&self) -> (r: bool)
        ensures
            r == self@.zero,
    {
        self.zero
    }

    pub fn set_zero_flag(&mut self, zero: bool)
        requires
            old(self).wf(),
        ensures
            final(self).wf(),
            final(self)@ == (MachineModel { zero, ..old(self)@ }),
    {
        self.zero = zero;
    }

    pub fn get_carry_flag(&self) -> (r: bool)
        ensures
            r == self@.carry,
    {
        self.carry
    }

    pub fn set_carry_flag(&mut self, carry: bool)
        requires
            old(self).wf(),
        ensures
            final(self).wf(),
            final(self)@ == (MachineModel { carry, ..old(self)@ }),
    {
        self.carry = carry;
    }

    pub fn get_program_counter(&self) -> (r: usize)
        ensures
            r == self@.pc,
    {
        self.pc
    }

    pub fn set_program_counter(&mut self, pc: usize)
        requires
            old(self).wf(),
            pc <= MAX_ADDRESS,
        ensures
            final(self).wf(),
            final(self)@ == (MachineModel { pc: pc as int, ..old(self)@ }),
    {
        self.pc = pc;
    }

    pub fn get_call_stack(&self) -> (r: &Vec<usize>)
        ensures
            r@ == self@.call_stack,
    {
        &self.call_stack
    }

    /// Pushes a return address without the checks a call makes.
    pub fn add_to_call_stack_unrestricted(&mut self, addr: usize)
        requires
            old(self).wf(),
            old(self)@.call_stack.len() < CALL_STACK_CAPACITY,
            addr <= MAX_ADDRESS,
        ensures
            final(self).wf(),
            final(self)@ == (MachineModel {
                call_stack: old(self)@.call_stack.push(addr),
                ..old(self)@
            }),
    {
        self.call_stack.push(addr);
        assert(self@ =~= (MachineModel {
            call_stack: old(self)@.call_stack.push(addr),
            ..old(self)@
        }));
    }

    pub fn get_registers(&self) -> (r: [u8; 16])
        ensures
            r@ == self@.registers,
    {
        self.registers
    }

    /// The register at `index`, if there is one.
    pub fn get_register(&self, index: usize) -> (r: Option<u8>)
        ensures
            r == (if index < 16 {
                Some(self@.registers[index as int])
            } else {
                None
            }),
    {
        if index >= 16 {
            return None;
        }
        Some(self.registers[index])
    }

    /// Writes the register at `index`; an index past the last register changes nothing.
    pub fn set_register(&mut self, index: usize, value: u8)
        requires
            old(self).wf(),
        ensures
            final(self).wf(),
            final(self)@ == (if index < 16 {
                MachineModel {
                    registers: old(self)@.registers.update(index as int, value),
                    ..old(self)@
                }
            } else {
                old(self)@
            }),
    {
        if index >= 16 {
            return;
        }
        self.registers[index] = value;
        assert(self@ =~= MachineModel {
            registers: old(self)@.registers.update(index as int, value),
            ..old(self)@
        });
    }

    /// The scratch-pad byte at `addr`, if there is one.
    pub fn get_scratch_pad_memory(&self, addr: usize) -> (r: Option<u8>)
        ensures
            r == (if addr < SCRATCH_PAD_MEMORY_SIZE {
                Some(self@.scratch[addr as int])
            } else {
                None
            }),
    {
        if addr >= SCRATCH_PAD_MEMORY_SIZE {
            return None;
        }
        Some(self.scratch_memory[addr])
    }

    /// Writes the scratch-pad byte at `addr`; an address past the end changes nothing.
    pub fn set_scratch_pad_memory(&mut self, addr: usize, value: u8)
        requires
            old(self).wf(),
        ensures
            final(self).wf(),
            final(self)@ == (if addr < SCRATCH_PAD_MEMORY_SIZE {
                MachineModel { scratch: old(self)@.scratch.update(addr as int, value), ..old(self)@ }
            } else {
                old(self)@
            }),
    {
        if addr >= SCRATCH_PAD_MEMORY_SIZE {
            return;
        }
        self.scratch_memory[addr] = value;
        assert(self@ =~= MachineModel {
            scratch: old(self)@.scratch.update(addr as int, value),
            ..old(self)@
        });
    }

    /// Runs one fetch-decode-execute step. An empty slot at the program counter
    /// halts and changes nothing; a fault changes nothing either.
    pub fn step(&mut self) -> (r: Result<StepOutcome, SimulationError>)
        requires
            old(self).wf(),
        ensures
            final(self).wf(),
            match step_spec(old(self)@) {
                Ok((o, m)) => r == Ok::<StepOutcome, SimulationError>(o) && final(self)@ == m,
                Err(e) => r == Err::<StepOutcome, SimulationError>(e) && final(self)@ == old(self)@,
            },
    {
        let slot = self.instructions[self.pc];
        match slot {
            None => Ok(StepOutcome::Halted),
            Some(instruction) => {
                assert(self@.program[self@.pc] == Some(instruction));
                match self.execute_instruction(instruction) {
                    Err(e) => Err(e),
                    Ok(update) => {
                        proof {
                            lemma_effect_valid(self@, instruction);
                        }
                        self.apply_update(update);
                        Ok(StepOutcome::Executed)
                    },
                }
            },
        }
    }

    /// Runs steps until the machine halts, faults, or `max_steps` steps have
    /// run. Returns `Halted` when it halted and `Executed` when the budget ran
    /// out; a fault leaves the machine as the faulting step found it.
    pub fn run(&mut self, max_steps: usize) -> (r: Result<StepOutcome, SimulationError>)
        requires
            old(self).wf(),
        ensures
            final(self).wf(),
            match run_spec(old(self)@, max_steps as nat) {
                Ok((o, m)) => r == Ok::<StepOutcome, SimulationError>(o) && final(self)@ == m,
                Err((e, m)) => r == Err::<StepOutcome, SimulationError>(e) && final(self)@ == m,
            },
    {
        let mut k: usize = 0;
        while k < max_steps
            invariant
                k <= max_steps,
                self.wf(),
                run_spec(old(self)@, max_steps as nat) == run_spec(
                    self@,
                    (max_steps - k) as nat,
                ),
            decreases max_steps - k,
        {
            match self.step() {
                Err(e) => {
                    return Err(e);
                },
                Ok(StepOutcome::Halted) => {
                    return Ok(StepOutcome::Halted);
                },
                Ok(StepOutcome::Executed) => {},
            }
            k = k + 1;
        }
        Ok(StepOutcome::Executed)
    }

    /// Carries out an update: registers and flags are overwritten, the program
    /// counter moves, a return pops the call stack into it, a call pushes its
    /// return address, and a memory operation runs last.
    fn apply_update(&mut self, update: SimulationUpdate)
        requires
            old(self).wf(),
            update_valid(old(self)@, update@),
        ensures
            final(self).wf(),
            final(self)@ == apply(old(self)@, update@),
    {
        proof {
            lemma_apply_wf(self@, update@);
        }
        self.registers = update.registers;
        self.zero = update.zero;
        self.carry = update.carry;
        self.pc = update.pc;
        if update.ret_addr {
            self.pc = self.call_stack.pop().unwrap();
        }
        match update.call_addr {
            Some(addr) => self.call_stack.push(addr),
            None => {},
        }
        match update.memory_op {
            Some(MemoryOperation::Store(addr, value)) => {
                self.scratch_memory[addr] = value;
            },
            Some(MemoryOperation::Fetch(addr, register)) => {
                self.registers[register as usize] = self.scratch_memory[addr];
            },
            None => {},
        }
        assert(self@.registers =~= apply(old(self)@, update@).registers);
        assert(self@.scratch =~= apply(old(self)@, update@).scratch);
        assert(self@.call_stack =~= apply(old(self)@, update@).call_stack);
    }

    /// Dispatches `instruction` to its handler.
    fn execute_instruction(&self, instruction: Instruction) -> (r: Result<
        SimulationUpdate,
        SimulationError,
    >)
        requires
            self.wf(),
            instruction_wf(instruction),
        ensures
            outcome(r) == effect(self@, instruction),
    {
        match instruction {
            Instruction::Load { lhs, rhs } => load::register_register(self, lhs, rhs),
            Instruction::LoadConstant { lhs, rhs } => load::register_constant(self, lhs, rhs),
            Instruction::And { lhs, rhs } => and::register_register(self, lhs, rhs),
            Instruction::AndConstant { lhs, rhs } => and::register_constant(self, lhs, rhs),
            Instruction::Call { address } => call::address(self, address, None),
            Instruction::CallConditional { condition, address } => {
                call::address(self, address, Some(condition))
            },
            Instruction::CallAt { first, second } => call::register_pair(self, first, second),
            Instruction::Compare { lhs, rhs } => compare::register_register(self, lhs, rhs),
            Instruction::CompareConstant { lhs, rhs } => compare::register_constant(self, lhs, rhs),
            Instruction::CompareCarry { lhs, rhs } => {
                compare_carry::register_register(self, lhs, rhs)
            },
            Instruction::CompareCarryConstant { lhs, rhs } => {
                compare_carry::register_constant(self, lhs, rhs)
            },
            Instruction::FetchConstant { lhs, rhs } => fetch::register_constant(self, lhs, rhs),
            Instruction::FetchDeref { lhs, rhs } => fetch::register_deref(self, lhs, rhs),
            Instruction::Or { lhs, rhs } => or::register_register(self, lhs, rhs),
            Instruction::OrConstant { lhs, rhs } => or::register_constant(self, lhs, rhs),
            Instruction::Xor { lhs, rhs } => xor::register_register(self, lhs, rhs),
            Instruction::XorConstant { lhs, rhs } => xor::register_constant(self, lhs, rhs),
            Instruction::Add { lhs, rhs } => add::register_register(self, lhs, rhs),
            Instruction::AddConstant { lhs, rhs } => add::register_constant(self, lhs, rhs),
            Instruction::AddCarry { lhs, rhs } => add_carry::register_register(self, lhs, rhs),
            Instruction::AddCarryConstant { lhs, rhs } => {
                add_carry::register_constant(self, lhs, rhs)
            },
            Instruction::Jump { address } => jump::address(self, address, None),
            Instruction::JumpConditional { condition, address } => {
                jump::address(self, address, Some(condition))
            },
            Instruction::JumpAt { first, second } => jump::register_pair(self, first, second),
            Instruction::Return => ret::default(self, None),
            Instruction::ReturnCondition { condition } => ret::default(self, Some(condition)),
            Instruction::ShiftLeftZero { register } => {
                shift_left::register(self, register, ShiftMode::Number(0))
            },
            Instruction::ShiftLeftOne { register } => {
                shift_left::register(self, register, ShiftMode::Number(1))
            },
            Instruction::ShiftLeftCarry { register } => {
                shift_left::register(self, register, ShiftMode::Carry)
            },
            Instruction::ShiftLeftArth { register } => {
                shift_left::register(self, register, ShiftMode::Repeat)
            },
            Instruction::ShiftRightZero { register } => {
                shift_right::register(self, register, ShiftMode::Number(0))
            },
            Instruction::ShiftRightOne { register } => {
                shift_right::register(self, register, ShiftMode::Number(1))
            },
            Instruction::ShiftRightCarry { register } => {
                shift_right::register(self, register, ShiftMode::Carry)
            },
            Instruction::ShiftRightArth { register } => {
                shift_right::register(self, register, ShiftMode::Repeat)
            },
            Instruction::StoreConstant { lhs, rhs } => store::register_constant(self, lhs, rhs),
            Instruction::StoreDeref { lhs, rhs } => store::register_deref(self, lhs, rhs),
            Instruction::Subtract { lhs, rhs } => subtract::register_register(self, lhs, rhs),
            Instruction::SubtractConstant { lhs, rhs } => {
                subtract::register_constant(self, lhs, rhs)
            },
            Instruction::SubtractCarry { lhs, rhs } => {
                subtract_carry::register_register(self, lhs, rhs)
            },
            Instruction::SubtractCarryConstant { lhs, rhs } => {
                subtract_carry::register_constant(self, lhs, rhs)
            },
            Instruction::Test { lhs, rhs } => crate::instructions::test::register_register(self, lhs, rhs),
            Instruction::TestConstant { lhs, rhs } => crate::instructions::test::register_constant(self, lhs, rhs),
            Instruction::TestCarry { lhs, rhs } => test_carry::register_register(self, lhs, rhs),
            Instruction::TestCarryConstant { lhs, rhs } => {
                test_carry::register_constant(self, lhs, rhs)
            },
            Instruction::RotateLeft { register } => rotate_left::register(self, register),
            Instruction::RotateRight { register } => rotate_right::register(self, register),
            _ => Err(SimulationError::Unsupported),
        }
    }
}

} // verus!
