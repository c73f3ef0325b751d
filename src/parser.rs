//! Instructions and the two-pass assembler that produces them from tokens.
use vstd::prelude::*;
use crate::syntax::{
    address_directive, alias_directive, bind_labels, constant_directive, decode, decode_line,
    instr_addr, instr_condition, instr_condition_addr, instr_double_deref, instr_num_num,
    instr_only, instr_reg, instr_reg_deref, instr_reg_num, instr_reg_reg, is_directive, is_reg,
    label_names, lookup, occupied, pass1_line, reg_instruction, reg_num_instruction,
    reg_reg_instruction, resolve, resolve_all, shape, shape_letter, strip_labels, word_pair,
    word_word,
    AssemblyError, AssemblyErrorKind, Pass1, Tables,
};
use crate::text::{chars_of, is_text, lowercase, string_of};
use crate::interpreter::program_list_wf;
use crate::syntax::{
    assemble, compact, lemma_compact_ordered, lemma_compact_wf, lemma_pass2_wf, strictly_ordered, pass1, pass2, split_lines, split_state,
};
use crate::tokenizer::{views, ConditionType, NumberType, Token, TokenView};

verus! {

/// One machine instruction with its operands. Register operands are indices
/// into the register file, immediates and addresses are kept as written and
/// are checked when the instruction runs.
#[allow(inconsistent_fields)]
#[derive(Debug, Clone, Copy, PartialEq, Eq, Structural)]
pub enum Instruction {
    Add { lhs: u8, rhs: u8 },
    AddConstant { lhs: u8, rhs: u32 },
    AddCarry { lhs: u8, rhs: u8 },
    AddCarryConstant { lhs: u8, rhs: u32 },
    And { lhs: u8, rhs: u8 },
    AndConstant { lhs: u8, rhs: u32 },
    Call { address: u32 },
    CallAt { first: u8, second: u8 },
    CallConditional { condition: ConditionType, address: u32 },
    Compare { lhs: u8, rhs: u8 },
    CompareConstant { lhs: u8, rhs: u32 },
    CompareCarry { lhs: u8, rhs: u8 },
    CompareCarryConstant { lhs: u8, rhs: u32 },
    FetchConstant { lhs: u8, rhs: u32 },
    FetchDeref { lhs: u8, rhs: u8 },
    HardwareBuild { register: u8 },
    InputConstant { lhs: u8, rhs: u32 },
    InputDeref { lhs: u8, rhs: u8 },
    Interrupt { state: bool },
    Jump { address: u32 },
    JumpAt { first: u8, second: u8 },
    JumpConditional { condition: ConditionType, address: u32 },
    Load { lhs: u8, rhs: u8 },
    LoadAndReturn { lhs: u8, rhs: u32 },
    LoadConstant { lhs: u8, rhs: u32 },
    Or { lhs: u8, rhs: u8 },
    OrConstant { lhs: u8, rhs: u32 },
    OutputConstant { lhs: u8, rhs: u32 },
    OutputDoubleConstant { lhs: u32, rhs: u32 },
    OutputDeref { lhs: u8, rhs: u8 },
    Regbank { selection: char },
    Return,
    ReturnCondition { condition: ConditionType },
    ReturnInterrupt { state: bool },
    RotateLeft { register: u8 },
    RotateRight { register: u8 },
    ShiftLeftZero { register: u8 },
    ShiftLeftOne { register: u8 },
    ShiftLeftCarry { register: u8 },
    ShiftLeftArth { register: u8 },
    ShiftRightZero { register: u8 },
    ShiftRightOne { register: u8 },
    ShiftRightCarry { register: u8 },
    ShiftRightArth { register: u8 },
    StoreConstant { lhs: u8, rhs: u32 },
    StoreDeref { lhs: u8, rhs: u8 },
    Star { lhs: u8, rhs: u8 },
    StarConstant { lhs: u8, rhs: u32 },
    Subtract { lhs: u8, rhs: u8 },
    SubtractConstant { lhs: u8, rhs: u32 },
    SubtractCarry { lhs: u8, rhs: u8 },
    SubtractCarryConstant { lhs: u8, rhs: u32 },
    Test { lhs: u8, rhs: u8 },
    TestConstant { lhs: u8, rhs: u32 },
    TestCarry { lhs: u8, rhs: u8 },
    TestCarryConstant { lhs: u8, rhs: u32 },
    Xor { lhs: u8, rhs: u8 },
    XorConstant { lhs: u8, rhs: u32 },
}

/// Every register operand of `i` names one of the 16 registers.
pub open spec fn instruction_wf(i: Instruction) -> bool {
    match i {
        Instruction::Add { lhs, rhs }
        | Instruction::AddCarry { lhs, rhs }
        | Instruction::And { lhs, rhs }
        | Instruction::Compare { lhs, rhs }
        | Instruction::CompareCarry { lhs, rhs }
        | Instruction::FetchDeref { lhs, rhs }
        | Instruction::InputDeref { lhs, rhs }
        | Instruction::Load { lhs, rhs }
        | Instruction::Or { lhs, rhs }
        | Instruction::OutputDeref { lhs, rhs }
        | Instruction::StoreDeref { lhs, rhs }
        | Instruction::Star { lhs, rhs }
        | Instruction::Subtract { lhs, rhs }
        | Instruction::SubtractCarry { lhs, rhs }
        | Instruction::Test { lhs, rhs }
        | Instruction::TestCarry { lhs, rhs }
        | Instruction::Xor { lhs, rhs } => lhs < 16 && rhs < 16,
        Instruction::AddConstant { lhs, .. }
        | Instruction::AddCarryConstant { lhs, .. }
        | Instruction::AndConstant { lhs, .. }
        | Instruction::CompareConstant { lhs, .. }
        | Instruction::CompareCarryConstant { lhs, .. }
        | Instruction::FetchConstant { lhs, .. }
        | Instruction::InputConstant { lhs, .. }
        | Instruction::LoadAndReturn { lhs, .. }
        | Instruction::LoadConstant { lhs, .. }
        | Instruction::OrConstant { lhs, .. }
        | Instruction::OutputConstant { lhs, .. }
        | Instruction::StoreConstant { lhs, .. }
        | Instruction::StarConstant { lhs, .. }
        | Instruction::SubtractConstant { lhs, .. }
        | Instruction::SubtractCarryConstant { lhs, .. }
        | Instruction::TestConstant { lhs, .. }
        | Instruction::TestCarryConstant { lhs, .. }
        | Instruction::XorConstant { lhs, .. } => lhs < 16,
        Instruction::CallAt { first, second } | Instruction::JumpAt { first, second } => first
            < 16 && second < 16,
        Instruction::HardwareBuild { register }
        | Instruction::RotateLeft { register }
        | Instruction::RotateRight { register }
        | Instruction::ShiftLeftZero { register }
        | Instruction::ShiftLeftOne { register }
        | Instruction::ShiftLeftCarry { register }
        | Instruction::ShiftLeftArth { register }
        | Instruction::ShiftRightZero { register }
        | Instruction::ShiftRightOne { register }
        | Instruction::ShiftRightCarry { register }
        | Instruction::ShiftRightArth { register } => register < 16,
        _ => true,
    }
}

/// A label bound to a program address.
#[derive(Debug, Clone)]
pub struct Label(pub String, pub u32);

/// A named constant.
#[derive(Debug, Clone)]
pub struct Constant(pub String, pub u32);

/// A name for a register.
#[derive(Debug, Clone)]
pub struct Alias(pub String, pub u8);

/// A register operand, plain or under the bitwise-not prefix.
#[derive(Debug, Clone, Copy, PartialEq, Eq, Structural)]
pub enum Register {
    Plain(u8),
    Not(u8),
}

pub open spec fn labels_view(v: Seq<Label>) -> Seq<(Seq<char>, u32)> {
    v.map_values(|l: Label| (l.0@, l.1))
}

pub open spec fn constants_view(v: Seq<Constant>) -> Seq<(Seq<char>, u32)> {
    v.map_values(|c: Constant| (c.0@, c.1))
}

pub open spec fn aliases_view(v: Seq<Alias>) -> Seq<(Seq<char>, u8)> {
    v.map_values(|a: Alias| (a.0@, a.1))
}

pub open spec fn placed_view(v: Seq<(usize, usize)>) -> Seq<(int, int)> {
    v.map_values(|p: (usize, usize)| (p.0 as int, p.1 as int))
}

pub open spec fn token_lines_view(v: Seq<Vec<Token>>) -> Seq<Seq<TokenView>> {
    v.map_values(|l: Vec<Token>| views(l@))
}

/// A token with the same view.
fn copy_token(t: &Token) -> (r: Token)
    ensures
        r@ == t@,
{
    match t {
        Token::Word(s) => Token::Word(s.clone()),
        Token::Instruction(s) => Token::Instruction(s.clone()),
        Token::Label(s) => Token::Label(s.clone()),
        Token::Register(r) => Token::Register(*r),
        Token::Number(n, k) => Token::Number(*n, *k),
        Token::Address(a) => Token::Address(*a),
        Token::Condition(c) => Token::Condition(*c),
        Token::ConstantDirective => Token::ConstantDirective,
        Token::AddressDirective => Token::AddressDirective,
        Token::NameregDirective => Token::NameregDirective,
        Token::Comma => Token::Comma,
        Token::Tilda => Token::Tilda,
        Token::Parentheses => Token::Parentheses,
        Token::EndOfLine => Token::EndOfLine,
    }
}

/// The line without its labels.
fn without_labels(line: &Vec<Token>) -> (r: Vec<Token>)
    ensures
        views(r@) == strip_labels(views(line@)),
{
    let ghost lv = views(line@);
    let mut out: Vec<Token> = Vec::new();
    let mut k: usize = 0;
    assert(views(out@) =~= strip_labels(lv.subrange(0, 0)));
    while k < line.len()
        invariant
            k <= line.len(),
            lv == views(line@),
            views(out@) == strip_labels(lv.subrange(0, k as int)),
        decreases line.len() - k,
    {
        assert(lv.subrange(0, k + 1).drop_last() =~= lv.subrange(0, k as int));
        match &line[k] {
            Token::Label(_) => {},
            t => {
                let ghost prev = out@;
                out.push(copy_token(t));
                assert(views(out@) =~= views(prev).push(t@));
            },
        }
        k = k + 1;
    }
    assert(lv.subrange(0, k as int) =~= lv);
    out
}

/// The letters of the tokens' shape.
fn convert_tokens_into_string(token_list: &Vec<Token>) -> (r: String)
    ensures
        r@ == shape(views(token_list@)),
{
    let ghost tv = views(token_list@);
    let mut res: Vec<char> = Vec::new();
    let mut k: usize = 0;
    assert(tv.subrange(0, 0) =~= Seq::<TokenView>::empty());
    while k < token_list.len()
        invariant
            k <= token_list.len(),
            tv == views(token_list@),
            res@ == shape(tv.subrange(0, k as int)),
        decreases token_list.len() - k,
    {
        assert(tv.subrange(0, k + 1).drop_last() =~= tv.subrange(0, k as int));
        let ghost prev = res@;
        let c = match &token_list[k] {
            Token::Word(_) => 'w',
            Token::Instruction(_) => 'i',
            Token::Register(_) => 'r',
            Token::Number(_, _) => 'n',
            Token::Address(_) | Token::Label(_) => 'a',
            Token::Condition(_) => 'c',
            Token::Comma => 'C',
            Token::Parentheses => 'p',
            Token::Tilda => ' ',
            _ => '.',
        };
        if c != ' ' {
            res.push(c);
            assert(res@ =~= prev + shape_letter(tv[k as int]));
        } else {
            assert(res@ =~= prev + shape_letter(tv[k as int]));
        }
        k = k + 1;
    }
    assert(tv.subrange(0, k as int) =~= tv);
    string_of(&res)
}

fn reg_token(t: &Token) -> (r: Option<u8>)
    ensures
        r == (if is_reg(t@) {
            Some(t@->Register_0)
        } else {
            None
        }),
{
    match t {
        Token::Register(r) => if *r < 16 {
            Some(*r)
        } else {
            None
        },
        _ => None,
    }
}

fn mnemonic_is(t: &Token, lit: &str) -> (r: bool)
    ensures
        r == (t@ is Instruction && t@->Instruction_0 == lit@),
{
    match t {
        Token::Instruction(m) => is_text(&chars_of(m.as_str()), lit),
        _ => false,
    }
}

fn instr_only_exec(ts: &Vec<Token>) -> (r: Result<Instruction, AssemblyErrorKind>)
    ensures
        r == instr_only(views(ts@)),
{
    if ts.len() == 1 && mnemonic_is(&ts[0], "return") {
        Ok(Instruction::Return)
    } else {
        Err(AssemblyErrorKind::InvalidOperands)
    }
}

fn instr_condition_exec(ts: &Vec<Token>) -> (r: Result<Instruction, AssemblyErrorKind>)
    ensures
        r == instr_condition(views(ts@)),
{
    if ts.len() == 2 && mnemonic_is(&ts[0], "return") {
        if let Token::Condition(condition) = &ts[1] {
            return Ok(Instruction::ReturnCondition { condition: *condition });
        }
    }
    Err(AssemblyErrorKind::InvalidOperands)
}

fn reg_reg_instruction_exec(m: &String, lhs: u8, rhs: u8) -> (r: Option<Instruction>)
    ensures
        r == reg_reg_instruction(m@, lhs, rhs),
{
    let m = chars_of(m.as_str());
    if is_text(&m, "add") {
        Some(Instruction::Add { lhs, rhs })
    } else if is_text(&m, "addcy") {
        Some(Instruction::AddCarry { lhs, rhs })
    } else if is_text(&m, "and") {
        Some(Instruction::And { lhs, rhs })
    } else if is_text(&m, "compare") {
        Some(Instruction::Compare { lhs, rhs })
    } else if is_text(&m, "comparecy") {
        Some(Instruction::CompareCarry { lhs, rhs })
    } else if is_text(&m, "load") {
        Some(Instruction::Load { lhs, rhs })
    } else if is_text(&m, "or") {
        Some(Instruction::Or { lhs, rhs })
    } else if is_text(&m, "star") {
        Some(Instruction::Star { lhs, rhs })
    } else if is_text(&m, "sub") {
        Some(Instruction::Subtract { lhs, rhs })
    } else if is_text(&m, "subcy") {
        Some(Instruction::SubtractCarry { lhs, rhs })
    } else if is_text(&m, "test") {
        Some(Instruction::Test { lhs, rhs })
    } else if is_text(&m, "testcy") {
        Some(Instruction::TestCarry { lhs, rhs })
    } else if is_text(&m, "xor") {
        Some(Instruction::Xor { lhs, rhs })
    } else {
        None
    }
}

fn instr_reg_reg_exec(ts: &Vec<Token>) -> (r: Result<Instruction, AssemblyErrorKind>)
    ensures
        r == instr_reg_reg(views(ts@)),
{
    let n = ts.len();
    if n != 4 && !(n == 5 && matches!(ts[3], Token::Tilda)) {
        return Err(AssemblyErrorKind::InvalidOperands);
    }
    let rhs_at: usize = if n == 5 {
        4
    } else {
        3
    };
    match (&ts[0], reg_token(&ts[1]), reg_token(&ts[rhs_at])) {
        (Token::Instruction(m), Some(lhs), Some(rhs)) => match reg_reg_instruction_exec(m, lhs, rhs) {
            Some(i) => Ok(i),
            None => Err(AssemblyErrorKind::InvalidOperands),
        },
        _ => Err(AssemblyErrorKind::InvalidOperands),
    }
}

fn reg_num_instruction_exec(m: &String, lhs: u8, rhs: u32) -> (r: Option<Instruction>)
    ensures
        r == reg_num_instruction(m@, lhs, rhs),
{
    let m = chars_of(m.as_str());
    if is_text(&m, "add") {
        Some(Instruction::AddConstant { lhs, rhs })
    } else if is_text(&m, "addcy") {
        Some(Instruction::AddCarryConstant { lhs, rhs })
    } else if is_text(&m, "and") {
        Some(Instruction::AndConstant { lhs, rhs })
    } else if is_text(&m, "compare") {
        Some(Instruction::CompareConstant { lhs, rhs })
    } else if is_text(&m, "comparecy") {
        Some(Instruction::CompareCarryConstant { lhs, rhs })
    } else if is_text(&m, "fetch") {
        Some(Instruction::FetchConstant { lhs, rhs })
    } else if is_text(&m, "input") {
        Some(Instruction::InputConstant { lhs, rhs })
    } else if is_text(&m, "load") {
        Some(Instruction::LoadConstant { lhs, rhs })
    } else if is_text(&m, "load&return") {
        Some(Instruction::LoadAndReturn { lhs, rhs })
    } else if is_text(&m, "or") {
        Some(Instruction::OrConstant { lhs, rhs })
    } else if is_text(&m, "output") {
        Some(Instruction::OutputConstant { lhs, rhs })
    } else if is_text(&m, "store") {
        Some(Instruction::StoreConstant { lhs, rhs })
    } else if is_text(&m, "star") {
        Some(Instruction::StarConstant { lhs, rhs })
    } else if is_text(&m, "sub") {
        Some(Instruction::SubtractConstant { lhs, rhs })
    } else if is_text(&m, "subcy") {
        Some(Instruction::SubtractCarryConstant { lhs, rhs })
    } else if is_text(&m, "test") {
        Some(Instruction::TestConstant { lhs, rhs })
    } else if is_text(&m, "testcy") {
        Some(Instruction::TestCarryConstant { lhs, rhs })
    } else if is_text(&m, "xor") {
        Some(Instruction::XorConstant { lhs, rhs })
    } else {
        None
    }
}

fn instr_reg_num_exec(ts: &Vec<Token>) -> (r: Result<Instruction, AssemblyErrorKind>)
    ensures
        r == instr_reg_num(views(ts@)),
{
    if ts.len() != 4 {
        return Err(AssemblyErrorKind::InvalidOperands);
    }
    match (&ts[0], reg_token(&ts[1]), &ts[3]) {
        (Token::Instruction(m), Some(lhs), Token::Number(rhs, _)) => {
            if *rhs > 255 {
                Err(AssemblyErrorKind::ImmediateOutOfRange)
            } else {
                match reg_num_instruction_exec(m, lhs, *rhs) {
                    Some(i) => Ok(i),
                    None => Err(AssemblyErrorKind::InvalidOperands),
                }
            }
        },
        _ => Err(AssemblyErrorKind::InvalidOperands),
    }
}

fn reg_instruction_exec(m: &String, register: u8) -> (r: Option<Instruction>)
    ensures
        r == reg_instruction(m@, register),
{
    let m = chars_of(m.as_str());
    if is_text(&m, "sl0") {
        Some(Instruction::ShiftLeftZero { register })
    } else if is_text(&m, "sl1") {
        Some(Instruction::ShiftLeftOne { register })
    } else if is_text(&m, "sla") {
        Some(Instruction::ShiftLeftArth { register })
    } else if is_text(&m, "slx") {
        Some(Instruction::ShiftLeftCarry { register })
    } else if is_text(&m, "sr0") {
        Some(Instruction::ShiftRightZero { register })
    } else if is_text(&m, "sr1") {
        Some(Instruction::ShiftRightOne { register })
    } else if is_text(&m, "sra") {
        Some(Instruction::ShiftRightArth { register })
    } else if is_text(&m, "srx") {
        Some(Instruction::ShiftRightCarry { register })
    } else if is_text(&m, "rl") {
        Some(Instruction::RotateLeft { register })
    } else if is_text(&m, "rr") {
        Some(Instruction::RotateRight { register })
    } else if is_text(&m, "hwbuild") {
        Some(Instruction::HardwareBuild { register })
    } else {
        None
    }
}

fn instr_reg_exec(ts: &Vec<Token>) -> (r: Result<Instruction, AssemblyErrorKind>)
    ensures
        r == instr_reg(views(ts@)),
{
    if ts.len() != 2 {
        return Err(AssemblyErrorKind::InvalidOperands);
    }
    match (&ts[0], reg_token(&ts[1])) {
        (Token::Instruction(m), Some(register)) => match reg_instruction_exec(m, register) {
            Some(i) => Ok(i),
            None => Err(AssemblyErrorKind::InvalidOperands),
        },
        _ => Err(AssemblyErrorKind::InvalidOperands),
    }
}

fn instr_reg_deref_exec(ts: &Vec<Token>) -> (r: Result<Instruction, AssemblyErrorKind>)
    ensures
        r == instr_reg_deref(views(ts@)),
{
    if ts.len() != 6 || !matches!(ts[0], Token::Instruction(_)) {
        return Err(AssemblyErrorKind::InvalidOperands);
    }
    match (reg_token(&ts[1]), reg_token(&ts[4])) {
        (Some(lhs), Some(rhs)) => {
            if mnemonic_is(&ts[0], "input") {
                Ok(Instruction::InputDeref { lhs, rhs })
            } else if mnemonic_is(&ts[0], "output") {
                Ok(Instruction::OutputDeref { lhs, rhs })
            } else if mnemonic_is(&ts[0], "fetch") {
                Ok(Instruction::FetchDeref { lhs, rhs })
            } else if mnemonic_is(&ts[0], "store") {
                Ok(Instruction::StoreDeref { lhs, rhs })
            } else {
                Err(AssemblyErrorKind::InvalidOperands)
            }
        },
        _ => Err(AssemblyErrorKind::InvalidOperands),
    }
}

fn instr_num_num_exec(ts: &Vec<Token>) -> (r: Result<Instruction, AssemblyErrorKind>)
    ensures
        r == instr_num_num(views(ts@)),
{
    if ts.len() != 4 || !mnemonic_is(&ts[0], "outputk") {
        return Err(AssemblyErrorKind::InvalidOperands);
    }
    match (&ts[1], &ts[3]) {
        (Token::Number(lhs, _), Token::Number(rhs, _)) => {
            if *lhs > 255 || *rhs > 255 {
                Err(AssemblyErrorKind::ImmediateOutOfRange)
            } else {
                Ok(Instruction::OutputDoubleConstant { lhs: *lhs, rhs: *rhs })
            }
        },
        _ => Err(AssemblyErrorKind::InvalidOperands),
    }
}

fn instr_double_deref_exec(ts: &Vec<Token>) -> (r: Result<Instruction, AssemblyErrorKind>)
    ensures
        r == instr_double_deref(views(ts@)),
{
    if ts.len() != 6 || !matches!(ts[0], Token::Instruction(_)) {
        return Err(AssemblyErrorKind::InvalidOperands);
    }
    match (reg_token(&ts[2]), reg_token(&ts[4])) {
        (Some(first), Some(second)) => {
            if mnemonic_is(&ts[0], "jump@") {
                Ok(Instruction::JumpAt { first, second })
            } else if mnemonic_is(&ts[0], "call@") {
                Ok(Instruction::CallAt { first, second })
            } else {
                Err(AssemblyErrorKind::InvalidOperands)
            }
        },
        _ => Err(AssemblyErrorKind::InvalidOperands),
    }
}

fn instr_addr_exec(ts: &Vec<Token>) -> (r: Result<Instruction, AssemblyErrorKind>)
    ensures
        r == instr_addr(views(ts@)),
{
    if ts.len() != 2 || !matches!(ts[0], Token::Instruction(_)) {
        return Err(AssemblyErrorKind::InvalidOperands);
    }
    match &ts[1] {
        Token::Address(address) => {
            if mnemonic_is(&ts[0], "jump") {
                Ok(Instruction::Jump { address: *address })
            } else if mnemonic_is(&ts[0], "call") {
                Ok(Instruction::Call { address: *address })
            } else {
                Err(AssemblyErrorKind::InvalidOperands)
            }
        },
        _ => Err(AssemblyErrorKind::InvalidOperands),
    }
}

fn instr_condition_addr_exec(ts: &Vec<Token>) -> (r: Result<Instruction, AssemblyErrorKind>)
    ensures
        r == instr_condition_addr(views(ts@)),
{
    if ts.len() != 4 || !matches!(ts[0], Token::Instruction(_)) {
        return Err(AssemblyErrorKind::InvalidOperands);
    }
    match (&ts[1], &ts[3]) {
        (Token::Condition(condition), Token::Address(address)) => {
            let condition = *condition;
            let address = *address;
            if mnemonic_is(&ts[0], "jump") {
                Ok(Instruction::JumpConditional { condition, address })
            } else if mnemonic_is(&ts[0], "call") {
                Ok(Instruction::CallConditional { condition, address })
            } else {
                Err(AssemblyErrorKind::InvalidOperands)
            }
        },
        _ => Err(AssemblyErrorKind::InvalidOperands),
    }
}

/// The instruction that two words, already in lowercase, name.
pub fn word_pair_instruction(w1: &String, w2: &String) -> (r: Result<Instruction, AssemblyErrorKind>)
    ensures
        r == word_pair(w1@, w2@),
{
    let w1 = chars_of(w1.as_str());
    let w2 = chars_of(w2.as_str());
    if is_text(&w1, "regbank") && is_text(&w2, "a") {
        Ok(Instruction::Regbank { selection: 'a' })
    } else if is_text(&w1, "regbank") && is_text(&w2, "b") {
        Ok(Instruction::Regbank { selection: 'b' })
    } else if is_text(&w1, "returni") && is_text(&w2, "disable") {
        Ok(Instruction::ReturnInterrupt { state: false })
    } else if is_text(&w1, "returni") && is_text(&w2, "enable") {
        Ok(Instruction::ReturnInterrupt { state: true })
    } else if is_text(&w1, "enable") && is_text(&w2, "interrupt") {
        Ok(Instruction::Interrupt { state: true })
    } else if is_text(&w1, "disable") && is_text(&w2, "interrupt") {
        Ok(Instruction::Interrupt { state: false })
    } else {
        Err(AssemblyErrorKind::InvalidOperands)
    }
}

fn word_word_exec(ts: &Vec<Token>) -> (r: Result<Instruction, AssemblyErrorKind>)
    ensures
        r == word_word(views(ts@)),
{
    if ts.len() != 2 {
        return Err(AssemblyErrorKind::InvalidOperands);
    }
    match (&ts[0], &ts[1]) {
        (Token::Word(a), Token::Word(b)) => word_pair_instruction(
            &lowercase(a.as_str()),
            &lowercase(b.as_str()),
        ),
        _ => Err(AssemblyErrorKind::InvalidOperands),
    }
}

/// The instruction of resolved tokens, chosen by the shape of the line.
fn decode_exec(ts: &Vec<Token>) -> (r: Result<Instruction, AssemblyErrorKind>)
    ensures
        r == decode(views(ts@)),
{
    let sig = chars_of(convert_tokens_into_string(ts).as_str());
    if is_text(&sig, "i") {
        instr_only_exec(ts)
    } else if is_text(&sig, "ic") {
        instr_condition_exec(ts)
    } else if is_text(&sig, "ir") {
        instr_reg_exec(ts)
    } else if is_text(&sig, "irCr") {
        instr_reg_reg_exec(ts)
    } else if is_text(&sig, "irCn") {
        instr_reg_num_exec(ts)
    } else if is_text(&sig, "irCprp") {
        instr_reg_deref_exec(ts)
    } else if is_text(&sig, "inCn") {
        instr_num_num_exec(ts)
    } else if is_text(&sig, "ia") {
        instr_addr_exec(ts)
    } else if is_text(&sig, "icCa") {
        instr_condition_addr_exec(ts)
    } else if is_text(&sig, "iprCrp") {
        instr_double_deref_exec(ts)
    } else if is_text(&sig, "ww") {
        word_word_exec(ts)
    } else {
        Err(AssemblyErrorKind::UnknownPattern)
    }
}

proof fn lemma_lookup_step<V>(t: Seq<(Seq<char>, V)>, name: Seq<char>, k: int)
    requires
        0 <= k < t.len(),
    ensures
        lookup(t.subrange(k, t.len() as int), name) == (if t[k].0 == name {
            Some(t[k].1)
        } else {
            lookup(t.subrange(k + 1, t.len() as int), name)
        }),
{
    assert(t.subrange(k, t.len() as int).drop_first() =~= t.subrange(k + 1, t.len() as int));
}

/// Assembles a token stream in two passes: the first binds labels, constants
/// and register names and gives each instruction line its address; the second
/// decodes each instruction line against the finished tables.
pub struct Parser {
    instructions: Vec<(usize, Instruction)>,
    addresses: Vec<usize>,
    labels: Vec<Label>,
    constants: Vec<Constant>,
    aliases: Vec<Alias>,
}

impl Parser {
    /// The symbol tables.
    pub closed spec fn tables(&self) -> Tables {
        Tables {
            labels: labels_view(self.labels@),
            constants: constants_view(self.constants@),
            aliases: aliases_view(self.aliases@),
        }
    }

    /// The assembled `(address, instruction)` pairs.
    pub closed spec fn instruction_table(&self) -> Seq<(usize, Instruction)> {
        self.instructions@
    }

    /// The addresses that instruction lines took.
    pub closed spec fn occupied_addresses(&self) -> Seq<usize> {
        self.addresses@
    }

    pub fn new() -> (r: Parser)
        ensures
            r.tables() == (Tables {
                labels: Seq::empty(),
                constants: Seq::empty(),
                aliases: Seq::empty(),
            }),
            r.instruction_table() == Seq::<(usize, Instruction)>::empty(),
            r.occupied_addresses() == Seq::<usize>::empty(),
    {
        let r = Parser {
            instructions: Vec::new(),
            addresses: Vec::new(),
            labels: Vec::new(),
            constants: Vec::new(),
            aliases: Vec::new(),
        };
        assert(r.tables().labels =~= Seq::empty());
        assert(r.tables().constants =~= Seq::empty());
        assert(r.tables().aliases =~= Seq::empty());
        r
    }

    pub fn get_instructions(&self) -> (r: &Vec<(usize, Instruction)>)
        ensures
            r@ == self.instruction_table(),
    {
        &self.instructions
    }

    pub fn get_labels(&self) -> (r: &Vec<Label>)
        ensures
            labels_view(r@) == self.tables().labels,
    {
        &self.labels
    }

    pub fn get_constants(&self) -> (r: &Vec<Constant>)
        ensures
            constants_view(r@) == self.tables().constants,
    {
        &self.constants
    }

    pub fn get_aliases(&self) -> (r: &Vec<Alias>)
        ensures
            aliases_view(r@) == self.tables().aliases,
    {
        &self.aliases
    }

    /// The first label named `label`.
    pub fn find_label(&self, label: &String) -> (r: Option<Label>)
        ensures
            match lookup(self.tables().labels, label@) {
                Some(a) => r matches Some(l) && l.0@ == label@ && l.1 == a,
                None => r is None,
            },
    {
        let ghost t = labels_view(self.labels@);
        let mut k: usize = 0;
        assert(t.subrange(0, t.len() as int) =~= t);
        while k < self.labels.len()
            invariant
                k <= self.labels.len(),
                t == labels_view(self.labels@),
                lookup(t, label@) == lookup(t.subrange(k as int, t.len() as int), label@),
            decreases self.labels.len() - k,
        {
            proof {
                lemma_lookup_step(t, label@, k as int);
            }
            if self.labels[k].0 == *label {
                return Some(Label(self.labels[k].0.clone(), self.labels[k].1));
            }
            k = k + 1;
        }
        assert(t.subrange(k as int, t.len() as int) =~= Seq::<(Seq<char>, u32)>::empty());
        None
    }

    /// The first constant named `constant`.
    pub fn find_constant(&self, constant: &String) -> (r: Option<Constant>)
        ensures
            match lookup(self.tables().constants, constant@) {
                Some(v) => r matches Some(c) && c.0@ == constant@ && c.1 == v,
                None => r is None,
            },
    {
        let ghost t = constants_view(self.constants@);
        let mut k: usize = 0;
        assert(t.subrange(0, t.len() as int) =~= t);
        while k < self.constants.len()
            invariant
                k <= self.constants.len(),
                t == constants_view(self.constants@),
                lookup(t, constant@) == lookup(t.subrange(k as int, t.len() as int), constant@),
            decreases self.constants.len() - k,
        {
            proof {
                lemma_lookup_step(t, constant@, k as int);
            }
            if self.constants[k].0 == *constant {
                return Some(Constant(self.constants[k].0.clone(), self.constants[k].1));
            }
            k = k + 1;
        }
        assert(t.subrange(k as int, t.len() as int) =~= Seq::<(Seq<char>, u32)>::empty());
        None
    }

    /// The first register name `alias`.
    pub fn find_alias(&self, alias: &String) -> (r: Option<Alias>)
        ensures
            match lookup(self.tables().aliases, alias@) {
                Some(v) => r matches Some(a) && a.0@ == alias@ && a.1 == v,
                None => r is None,
            },
    {
        let ghost t = aliases_view(self.aliases@);
        let mut k: usize = 0;
        assert(t.subrange(0, t.len() as int) =~= t);
        while k < self.aliases.len()
            invariant
                k <= self.aliases.len(),
                t == aliases_view(self.aliases@),
                lookup(t, alias@) == lookup(t.subrange(k as int, t.len() as int), alias@),
            decreases self.aliases.len() - k,
        {
            proof {
                lemma_lookup_step(t, alias@, k as int);
            }
            if self.aliases[k].0 == *alias {
                return Some(Alias(self.aliases[k].0.clone(), self.aliases[k].1));
            }
            k = k + 1;
        }
        assert(t.subrange(k as int, t.len() as int) =~= Seq::<(Seq<char>, u8)>::empty());
        None
    }

    /// A word as a label's address, a constant's value or a register name's
    /// register, tried in that order; otherwise the word itself.
    fn try_to_convert_word_into_token(&self, word: &String) -> (r: Token)
        ensures
            r@ == resolve(self.tables(), TokenView::Word(word@)),
    {
        if let Some(Label(_, addr)) = self.find_label(word) {
            return Token::Address(addr);
        }
        if let Some(Constant(_, value)) = self.find_constant(word) {
            return Token::Number(value, NumberType::Decimal);
        }
        if let Some(Alias(_, reg)) = self.find_alias(word) {
            return Token::Register(reg);
        }
        Token::Word(word.clone())
    }

    /// Binds the line's labels at `addr`. A label already bound leaves the
    /// table as it was and returns false.
    fn add_labels(&mut self, line: &Vec<Token>, addr: usize) -> (ok: bool)
        requires
            addr <= 1024,
        ensures
            match bind_labels(old(self).tables().labels, label_names(views(line@)), addr as int) {
                Some(l) => ok && final(self).tables() == (Tables { labels: l, ..old(self).tables() }),
                None => !ok && final(self).tables() == old(self).tables(),
            },
            final(self).instruction_table() == old(self).instruction_table(),
            final(self).occupied_addresses() == old(self).occupied_addresses(),
    {
        let ghost lv = views(line@);
        let ghost l0 = labels_view(self.labels@);
        let saved = self.labels.len();
        let mut failed = false;
        let mut k: usize = 0;
        assert(lv.subrange(0, 0) =~= Seq::<TokenView>::empty());
        while k < line.len()
            invariant
                k <= line.len(),
                addr <= 1024,
                lv == views(line@),
                saved <= self.labels.len(),
                self.labels@.subrange(0, saved as int) == old(self).labels@,
                l0 == labels_view(old(self).labels@),
                saved == old(self).labels@.len(),
                self.constants == old(self).constants,
                self.aliases == old(self).aliases,
                self.instructions == old(self).instructions,
                self.addresses == old(self).addresses,
                failed ==> bind_labels(l0, label_names(lv.subrange(0, k as int)), addr as int)
                    is None,
                !failed ==> bind_labels(l0, label_names(lv.subrange(0, k as int)), addr as int)
                    == Some(labels_view(self.labels@)),
            decreases line.len() - k,
        {
            assert(lv.subrange(0, k + 1).drop_last() =~= lv.subrange(0, k as int));
            assert(lv.subrange(0, k + 1).last() == line@[k as int]@);
            proof {
                if let TokenView::Label(n) = line@[k as int]@ {
                    assert(label_names(lv.subrange(0, k + 1)) == label_names(
                        lv.subrange(0, k as int),
                    ).push(n));
                    assert(label_names(lv.subrange(0, k + 1)).drop_last() =~= label_names(
                        lv.subrange(0, k as int),
                    ));
                } else {
                    assert(label_names(lv.subrange(0, k + 1)) == label_names(
                        lv.subrange(0, k as int),
                    ));
                }
            }
            if let Token::Label(name) = &line[k] {
                if !failed {
                    match self.find_label(name) {
                        Some(_) => {
                            failed = true;
                        },
                        None => {
                            let ghost prev = self.labels@;
                            self.labels.push(Label(name.clone(), addr as u32));
                            assert(labels_view(self.labels@) =~= labels_view(prev).push(
                                (name@, addr as u32),
                            ));
                            assert(self.labels@.subrange(0, saved as int) =~= prev.subrange(
                                0,
                                saved as int,
                            ));
                        },
                    }
                }
            }
            k = k + 1;
        }
        assert(lv.subrange(0, k as int) =~= lv);
        if failed {
            self.labels.truncate(saved);
            assert(self.labels@ =~= old(self).labels@);
        }
        !failed
    }

    /// `CONSTANT name, value`: defines the constant, or says why not.
    fn add_constant(&mut self, rest: &Vec<Token>) -> (r: Option<AssemblyErrorKind>)
        ensures
            match constant_directive(old(self).tables().constants, views(rest@)) {
                Err(k) => r == Some(k) && final(self).tables() == old(self).tables(),
                Ok((name, v)) => if lookup(old(self).tables().constants, name) is Some {
                    r == Some(AssemblyErrorKind::DuplicateConstant) && final(self).tables()
                        == old(self).tables()
                } else {
                    r is None && final(self).tables() == (Tables {
                        constants: old(self).tables().constants.push((name, v)),
                        ..old(self).tables()
                    })
                },
            },
            final(self).instruction_table() == old(self).instruction_table(),
            final(self).occupied_addresses() == old(self).occupied_addresses(),
    {
        if rest.len() != 4 {
            return Some(AssemblyErrorKind::MalformedDirective);
        }
        let (name, value) = match (&rest[1], &rest[3]) {
            (Token::Word(name), Token::Number(v, _)) => (name, *v),
            (Token::Word(name), Token::Word(w)) => match self.find_constant(w) {
                Some(Constant(_, v)) => (name, v),
                None => {
                    return Some(AssemblyErrorKind::UndefinedSymbol);
                },
            },
            _ => {
                return Some(AssemblyErrorKind::MalformedDirective);
            },
        };
        if self.find_constant(name).is_some() {
            return Some(AssemblyErrorKind::DuplicateConstant);
        }
        let ghost prev = self.constants@;
        self.constants.push(Constant(name.clone(), value));
        assert(constants_view(self.constants@) =~= constants_view(prev).push((name@, value)));
        None
    }

    /// `NAMEREG register, name`: defines the register name, or says why not.
    fn add_alias(&mut self, rest: &Vec<Token>) -> (r: Option<AssemblyErrorKind>)
        ensures
            match alias_directive(old(self).tables().aliases, views(rest@)) {
                Err(k) => r == Some(k) && final(self).tables() == old(self).tables(),
                Ok((name, v)) => if lookup(old(self).tables().aliases, name) is Some {
                    r == Some(AssemblyErrorKind::DuplicateAlias) && final(self).tables()
                        == old(self).tables()
                } else {
                    r is None && final(self).tables() == (Tables {
                        aliases: old(self).tables().aliases.push((name, v)),
                        ..old(self).tables()
                    })
                },
            },
            final(self).instruction_table() == old(self).instruction_table(),
            final(self).occupied_addresses() == old(self).occupied_addresses(),
    {
        if rest.len() != 4 {
            return Some(AssemblyErrorKind::MalformedDirective);
        }
        let (name, register) = match (&rest[1], &rest[3]) {
            (Token::Register(r), Token::Word(name)) => {
                if *r >= 16 {
                    return Some(AssemblyErrorKind::MalformedDirective);
                }
                (name, *r)
            },
            (Token::Word(other), Token::Word(name)) => match self.find_alias(other) {
                Some(Alias(_, r)) => (name, r),
                None => {
                    return Some(AssemblyErrorKind::UndefinedSymbol);
                },
            },
            _ => {
                return Some(AssemblyErrorKind::MalformedDirective);
            },
        };
        if self.find_alias(name).is_some() {
            return Some(AssemblyErrorKind::DuplicateAlias);
        }
        let ghost prev = self.aliases@;
        self.aliases.push(Alias(name.clone(), register));
        assert(aliases_view(self.aliases@) =~= aliases_view(prev).push((name@, register)));
        None
    }

    /// `ADDRESS value`: the address it names, or why it names none.
    fn update_address(&self, rest: &Vec<Token>) -> (r: Result<usize, AssemblyErrorKind>)
        ensures
            match address_directive(self.tables().constants, views(rest@)) {
                Ok(a) => r == Ok::<usize, AssemblyErrorKind>(a as usize) && a <= 1023,
                Err(k) => r == Err::<usize, AssemblyErrorKind>(k),
            },
    {
        if rest.len() != 2 {
            return Err(AssemblyErrorKind::MalformedDirective);
        }
        let value = match &rest[1] {
            Token::Address(a) => *a,
            Token::Number(n, _) => *n,
            Token::Word(w) => match self.find_constant(w) {
                Some(Constant(_, v)) => v,
                None => {
                    return Err(AssemblyErrorKind::UndefinedSymbol);
                },
            },
            _ => {
                return Err(AssemblyErrorKind::MalformedDirective);
            },
        };
        if value > 1023 {
            return Err(AssemblyErrorKind::AddressOutOfRange);
        }
        Ok(value as usize)
    }

    /// The first pass over one line, as `pass1_line` states it: returns the
    /// next emission address.
    fn parse_directives(
        &mut self,
        line: &Vec<Token>,
        line_no: usize,
        addr: usize,
        placed: &mut Vec<(usize, usize)>,
        errors: &mut Vec<AssemblyError>,
    ) -> (next: usize)
        requires
            addr <= 1024,
            old(self).occupied_addresses() == old(placed)@.map_values(|p: (usize, usize)| p.1),
        ensures
            pass1_line(
                Pass1 {
                    tables: old(self).tables(),
                    addr: addr as int,
                    placed: placed_view(old(placed)@),
                    errors: old(errors)@,
                },
                views(line@),
                line_no as int,
            ) == (Pass1 {
                tables: final(self).tables(),
                addr: next as int,
                placed: placed_view(final(placed)@),
                errors: final(errors)@,
            }),
            next <= 1024,
            final(placed)@ == old(placed)@ || (final(placed)@ == old(placed)@.push((line_no, addr))
                && addr < 1024),
            final(self).occupied_addresses() == final(placed)@.map_values(
                |p: (usize, usize)| p.1,
            ),
            final(self).instruction_table() == old(self).instruction_table(),
    {
        let rest = without_labels(line);
        let bearing = rest.len() > 0 && !matches!(
            rest[0],
            Token::ConstantDirective | Token::AddressDirective | Token::NameregDirective
        );
        assert(bearing == (strip_labels(views(line@)).len() > 0 && !is_directive(
            strip_labels(views(line@))[0],
        )));
        if !self.add_labels(line, addr) {
            errors.push(AssemblyError { line: line_no, kind: AssemblyErrorKind::DuplicateLabel });
            if bearing && addr < 1024 {
                return addr + 1;
            }
            return addr;
        }
        if rest.len() == 0 {
            return addr;
        }
        match &rest[0] {
            Token::ConstantDirective => {
                if let Some(kind) = self.add_constant(&rest) {
                    errors.push(AssemblyError { line: line_no, kind });
                }
                addr
            },
            Token::NameregDirective => {
                if let Some(kind) = self.add_alias(&rest) {
                    errors.push(AssemblyError { line: line_no, kind });
                }
                addr
            },
            Token::AddressDirective => match self.update_address(&rest) {
                Ok(a) => a,
                Err(kind) => {
                    errors.push(AssemblyError { line: line_no, kind });
                    addr
                },
            },
            _ => {
                if addr >= 1024 {
                    errors.push(
                        AssemblyError { line: line_no, kind: AssemblyErrorKind::AddressOutOfRange },
                    );
                    return addr;
                }
                if is_occupied(placed, addr) {
                    errors.push(
                        AssemblyError { line: line_no, kind: AssemblyErrorKind::DuplicateAddress },
                    );
                    return addr + 1;
                }
                let ghost prev = placed@;
                placed.push((line_no, addr));
                self.addresses.push(addr);
                assert(placed_view(placed@) =~= placed_view(prev).push((line_no as int, addr as int)));
                assert(self.addresses@ =~= placed@.map_values(|p: (usize, usize)| p.1));
                addr + 1
            },
        }
    }

    /// The second pass over one instruction line, as `decode_line` states it.
    fn parse_line(&self, line: &Vec<Token>) -> (r: Result<Instruction, AssemblyErrorKind>)
        ensures
            r == decode_line(self.tables(), views(line@)),
    {
        let rest = without_labels(line);
        let ghost rv = views(rest@);
        let mut resolved: Vec<Token> = Vec::new();
        let mut k: usize = 0;
        assert(views(resolved@) =~= resolve_all(self.tables(), rv.subrange(0, 0)));
        while k < rest.len()
            invariant
                k <= rest.len(),
                rv == views(rest@),
                views(resolved@) == resolve_all(self.tables(), rv.subrange(0, k as int)),
            decreases rest.len() - k,
        {
            let ghost prev = resolved@;
            assert(rv.subrange(0, k + 1) =~= rv.subrange(0, k as int).push(rest@[k as int]@));
            assert(resolve_all(self.tables(), rv.subrange(0, k + 1)) =~= resolve_all(
                self.tables(),
                rv.subrange(0, k as int),
            ).push(resolve(self.tables(), rest@[k as int]@)));
            match &rest[k] {
                Token::Word(w) => {
                    resolved.push(self.try_to_convert_word_into_token(w));
                },
                t => {
                    resolved.push(copy_token(t));
                },
            }
            assert(views(resolved@) =~= resolve_all(self.tables(), rv.subrange(0, k + 1)));
            k = k + 1;
        }
        assert(rv.subrange(0, k as int) =~= rv);
        decode_exec(&resolved)
    }

    /// Assembles `tokens` afresh. The tables, the occupied addresses and the
    /// instruction table (in address order) are those `assemble` gives; the
    /// result lists every line that did not assemble, one error per line.
    pub fn parse(&mut self, tokens: Vec<Token>) -> (r: Result<(), Vec<AssemblyError>>)
        ensures
            final(self).tables() == assemble(views(tokens@)).tables,
            final(self).instruction_table() == assemble(views(tokens@)).instructions,
            final(self).occupied_addresses() == assemble(views(tokens@)).placed.map_values(
                |p: (int, int)| p.1 as usize,
            ),
            match r {
                Ok(()) => assemble(views(tokens@)).errors.len() == 0,
                Err(es) => es@ == assemble(views(tokens@)).errors && es@.len() > 0,
            },
            program_list_wf(final(self).instruction_table()),
            strictly_ordered(final(self).instruction_table()),
    {
        self.instructions = Vec::new();
        self.addresses = Vec::new();
        self.labels = Vec::new();
        self.constants = Vec::new();
        self.aliases = Vec::new();
        let lines = split_into_lines(&tokens);
        let ghost lv = token_lines_view(lines@);
        let mut placed: Vec<(usize, usize)> = Vec::new();
        let mut errors: Vec<AssemblyError> = Vec::new();
        let mut addr: usize = 0;
        let mut i: usize = 0;
        assert(self.tables().labels =~= Seq::empty());
        assert(self.tables().constants =~= Seq::empty());
        assert(self.tables().aliases =~= Seq::empty());
        assert(placed_view(placed@) =~= Seq::empty());
        assert(self.addresses@ =~= placed@.map_values(|p: (usize, usize)| p.1));
        while i < lines.len()
            invariant
                i <= lines.len(),
                lv == token_lines_view(lines@),
                lv.len() == lines.len(),
                addr <= 1024,
                (Pass1 {
                    tables: self.tables(),
                    addr: addr as int,
                    placed: placed_view(placed@),
                    errors: errors@,
                }) == pass1(lv, i as nat),
                self.occupied_addresses() == placed@.map_values(|p: (usize, usize)| p.1),
                forall|k: int|
                    0 <= k < placed@.len() ==> #[trigger] placed@[k].0 < i && placed@[k].1 < 1024,
            decreases lines.len() - i,
        {
            let ghost before = placed@;
            addr = self.parse_directives(&lines[i], i, addr, &mut placed, &mut errors);
            assert(forall|k: int|
                0 <= k < placed@.len() ==> #[trigger] placed@[k].0 < i + 1 && placed@[k].1 < 1024)
                by {
                assert forall|k: int| 0 <= k < placed@.len() implies #[trigger] placed@[k].0 < i
                    + 1 && placed@[k].1 < 1024 by {
                    if k < before.len() {
                        assert(placed@[k] == before[k]);
                    }
                }
            }
            i = i + 1;
        }
        let ghost first = pass1(lv, lv.len());
        let ghost tables = self.tables();
        let mut slots: Vec<Option<Instruction>> = Vec::new();
        while slots.len() < 1024
            invariant
                slots.len() <= 1024,
                forall|a: int| 0 <= a < slots.len() ==> slots@[a] is None,
            decreases 1024 - slots.len(),
        {
            slots.push(None);
        }
        let mut errors2: Vec<AssemblyError> = Vec::new();
        let mut k: usize = 0;
        assert(slots@ =~= pass2(tables, lv, first.placed, 0).0);
        assert(errors2@ =~= pass2(tables, lv, first.placed, 0).1);
        while k < placed.len()
            invariant
                k <= placed.len(),
                lv == token_lines_view(lines@),
                lv.len() == lines.len(),
                tables == self.tables(),
                first.placed == placed_view(placed@),
                forall|j: int|
                    0 <= j < placed@.len() ==> #[trigger] placed@[j].0 < lines.len() && placed@[j].1
                        < 1024,
                (slots@, errors2@) == pass2(tables, lv, first.placed, k as nat),
                slots.len() == 1024,
            decreases placed.len() - k,
        {
            let (line_no, address) = placed[k];
            assert(placed@[k as int].0 < lines.len());
            assert(first.placed[k as int] == (line_no as int, address as int));
            assert(lv[line_no as int] == views(lines@[line_no as int]@));
            match self.parse_line(&lines[line_no]) {
                Ok(instruction) => {
                    slots.set(address, Some(instruction));
                },
                Err(kind) => {
                    errors2.push(AssemblyError { line: line_no, kind });
                },
            }
            k = k + 1;
        }
        let mut table: Vec<(usize, Instruction)> = Vec::new();
        let mut a: usize = 0;
        while a < 1024
            invariant
                a <= 1024,
                slots.len() == 1024,
                table@ == compact(slots@, a as nat),
            decreases 1024 - a,
        {
            if let Some(instruction) = slots[a] {
                table.push((a, instruction));
            }
            a = a + 1;
        }
        proof {
            lemma_pass2_wf(tables, lv, first.placed, first.placed.len());
            lemma_compact_wf(slots@, 1024);
            lemma_compact_ordered(slots@, 1024);
        }
        self.instructions = table;
        errors.append(&mut errors2);
        assert(placed@.map_values(|p: (usize, usize)| p.1) =~= first.placed.map_values(
            |p: (int, int)| p.1 as usize,
        ));
        if errors.len() == 0 {
            Ok(())
        } else {
            Err(errors)
        }
    }
}

/// Whether an instruction line already took `addr`.
fn is_occupied(placed: &Vec<(usize, usize)>, addr: usize) -> (r: bool)
    ensures
        r == occupied(placed_view(placed@), addr as int),
{
    let mut k: usize = 0;
    while k < placed.len()
        invariant
            k <= placed.len(),
            forall|j: int| 0 <= j < k ==> placed@[j].1 != addr,
        decreases placed.len() - k,
    {
        if placed[k].1 == addr {
            assert(placed_view(placed@)[k as int].1 == addr as int);
            return true;
        }
        k = k + 1;
    }
    assert forall|j: int| 0 <= j < placed_view(placed@).len() implies #[trigger] placed_view(
        placed@,
    )[j].1 != addr as int by {
        assert(placed@[j].1 != addr);
    }
    false
}

/// The tokens split into lines at each `EndOfLine`.
fn split_into_lines(tokens: &Vec<Token>) -> (r: Vec<Vec<Token>>)
    ensures
        token_lines_view(r@) == split_lines(views(tokens@)),
{
    let ghost tv = views(tokens@);
    let mut done: Vec<Vec<Token>> = Vec::new();
    let mut current: Vec<Token> = Vec::new();
    let mut k: usize = 0;
    assert(tv.subrange(0, 0) =~= Seq::<TokenView>::empty());
    assert(token_lines_view(done@) =~= Seq::<Seq<TokenView>>::empty());
    assert(views(current@) =~= Seq::<TokenView>::empty());
    while k < tokens.len()
        invariant
            k <= tokens.len(),
            tv == views(tokens@),
            (token_lines_view(done@), views(current@)) == split_state(tv.subrange(0, k as int)),
        decreases tokens.len() - k,
    {
        assert(tv.subrange(0, k + 1).drop_last() =~= tv.subrange(0, k as int));
        if matches!(tokens[k], Token::EndOfLine) {
            let ghost prev = done@;
            let ghost finished = current@;
            done.push(current);
            current = Vec::new();
            assert(token_lines_view(done@) =~= token_lines_view(prev).push(views(finished)));
            assert(views(current@) =~= Seq::<TokenView>::empty());
        } else {
            let ghost prev = current@;
            current.push(copy_token(&tokens[k]));
            assert(views(current@) =~= views(prev).push(tv[k as int]));
        }
        k = k + 1;
    }
    assert(tv.subrange(0, k as int) =~= tv);
    let ghost prev = done@;
    let ghost last = current@;
    done.push(current);
    assert(token_lines_view(done@) =~= token_lines_view(prev).push(views(last)));
    done
}

} // verus!
