//! The assembler as a mathematical model: directives, symbol resolution, token shapes and the two passes.
use vstd::prelude::*;
use crate::parser::{instruction_wf, Instruction};
use crate::text::lower_of;
use crate::tokenizer::{NumberType, TokenView};

verus! {

/// Why a line did not assemble.
#[derive(Debug, Clone, Copy, PartialEq, Eq, Structural)]
pub enum AssemblyErrorKind {
    /// A label that is already bound.
    DuplicateLabel,
    /// A constant that is already defined.
    DuplicateConstant,
    /// A register name that is already defined.
    DuplicateAlias,
    /// A directive that names a constant or register name nobody defined.
    UndefinedSymbol,
    /// A directive whose operands do not have its shape.
    MalformedDirective,
    /// An address past the program store.
    AddressOutOfRange,
    /// An instruction at an address that another instruction holds.
    DuplicateAddress,
    /// A token shape that no instruction has.
    UnknownPattern,
    /// A known shape whose mnemonic or operands do not fit it.
    InvalidOperands,
    /// An immediate that does not fit in a byte.
    ImmediateOutOfRange,
}

/// A line that did not assemble, with its index among the source lines.
#[derive(Debug, Clone, Copy, PartialEq, Eq, Structural)]
pub struct AssemblyError {
    pub line: usize,
    pub kind: AssemblyErrorKind,
}

/// The first entry of `t` named `name`.
pub open spec fn lookup<V>(t: Seq<(Seq<char>, V)>, name: Seq<char>) -> Option<V>
    decreases t.len(),
{
    if t.len() == 0 {
        None
    } else if t[0].0 == name {
        Some(t[0].1)
    } else {
        lookup(t.drop_first(), name)
    }
}

/// The symbol tables: labels, constants and register names.
pub struct Tables {
    pub labels: Seq<(Seq<char>, u32)>,
    pub constants: Seq<(Seq<char>, u32)>,
    pub aliases: Seq<(Seq<char>, u8)>,
}

/// The source split into lines at each `EndOfLine`, as `split` does: the
/// piece after the last one is a line too.
pub open spec fn split_lines(ts: Seq<TokenView>) -> Seq<Seq<TokenView>> {
    let (done, current) = split_state(ts);
    done.push(current)
}

pub open spec fn split_state(ts: Seq<TokenView>) -> (Seq<Seq<TokenView>>, Seq<TokenView>)
    decreases ts.len(),
{
    if ts.len() == 0 {
        (Seq::empty(), Seq::empty())
    } else {
        let (done, current) = split_state(ts.drop_last());
        if ts.last() is EndOfLine {
            (done.push(current), Seq::empty())
        } else {
            (done, current.push(ts.last()))
        }
    }
}

/// The line without its labels.
pub open spec fn strip_labels(line: Seq<TokenView>) -> Seq<TokenView>
    decreases line.len(),
{
    if line.len() == 0 {
        Seq::empty()
    } else if line.last() is Label {
        strip_labels(line.drop_last())
    } else {
        strip_labels(line.drop_last()).push(line.last())
    }
}

/// The names of the labels on the line, in order.
pub open spec fn label_names(line: Seq<TokenView>) -> Seq<Seq<char>>
    decreases line.len(),
{
    if line.len() == 0 {
        Seq::empty()
    } else if let TokenView::Label(name) = line.last() {
        label_names(line.drop_last()).push(name)
    } else {
        label_names(line.drop_last())
    }
}

/// The labels bound one after the other at `addr`; `None` at the first name
/// that is bound already.
pub open spec fn bind_labels(
    labels: Seq<(Seq<char>, u32)>,
    names: Seq<Seq<char>>,
    addr: int,
) -> Option<Seq<(Seq<char>, u32)>>
    decreases names.len(),
{
    if names.len() == 0 {
        Some(labels)
    } else {
        match bind_labels(labels, names.drop_last(), addr) {
            None => None,
            Some(l) => if lookup(l, names.last()) is Some {
                None
            } else {
                Some(l.push((names.last(), addr as u32)))
            },
        }
    }
}

pub open spec fn is_directive(t: TokenView) -> bool {
    t is ConstantDirective || t is AddressDirective || t is NameregDirective
}

/// `CONSTANT name, value`, the value a number or a defined constant.
pub open spec fn constant_directive(constants: Seq<(Seq<char>, u32)>, rest: Seq<TokenView>) -> Result<
    (Seq<char>, u32),
    AssemblyErrorKind,
> {
    if rest.len() != 4 {
        Err(AssemblyErrorKind::MalformedDirective)
    } else {
        match (rest[1], rest[3]) {
            (TokenView::Word(name), TokenView::Number(v, _)) => Ok((name, v)),
            (TokenView::Word(name), TokenView::Word(w)) => match lookup(constants, w) {
                Some(v) => Ok((name, v)),
                None => Err(AssemblyErrorKind::UndefinedSymbol),
            },
            _ => Err(AssemblyErrorKind::MalformedDirective),
        }
    }
}

/// `NAMEREG register, name`, the register written as such or by a defined name.
pub open spec fn alias_directive(aliases: Seq<(Seq<char>, u8)>, rest: Seq<TokenView>) -> Result<
    (Seq<char>, u8),
    AssemblyErrorKind,
> {
    if rest.len() != 4 {
        Err(AssemblyErrorKind::MalformedDirective)
    } else {
        match (rest[1], rest[3]) {
            (TokenView::Register(r), TokenView::Word(name)) => if r < 16 {
                Ok((name, r))
            } else {
                Err(AssemblyErrorKind::MalformedDirective)
            },
            (TokenView::Word(other), TokenView::Word(name)) => match lookup(aliases, other) {
                Some(r) => Ok((name, r)),
                None => Err(AssemblyErrorKind::UndefinedSymbol),
            },
            _ => Err(AssemblyErrorKind::MalformedDirective),
        }
    }
}

/// `ADDRESS value`: an address, a number or a defined constant, within the store.
pub open spec fn address_directive(constants: Seq<(Seq<char>, u32)>, rest: Seq<TokenView>) -> Result<
    int,
    AssemblyErrorKind,
> {
    let value: Option<u32> = if rest.len() != 2 {
        None
    } else {
        match rest[1] {
            TokenView::Address(a) => Some(a),
            TokenView::Number(n, _) => Some(n),
            TokenView::Word(w) => lookup(constants, w),
            _ => None,
        }
    };
    if rest.len() == 2 && rest[1] is Word && value is None {
        Err(AssemblyErrorKind::UndefinedSymbol)
    } else {
        match value {
            None => Err(AssemblyErrorKind::MalformedDirective),
            Some(v) => if v > 1023 {
                Err(AssemblyErrorKind::AddressOutOfRange)
            } else {
                Ok(v as int)
            },
        }
    }
}

/// What the first pass has gathered.
pub struct Pass1 {
    pub tables: Tables,
    /// The next emission address, 1024 once the store is full.
    pub addr: int,
    /// Each instruction line with the address it takes: (line, address).
    pub placed: Seq<(int, int)>,
    pub errors: Seq<AssemblyError>,
}

pub open spec fn occupied(placed: Seq<(int, int)>, addr: int) -> bool {
    exists|k: int| 0 <= k < placed.len() && #[trigger] placed[k].1 == addr
}

pub open spec fn with_error(st: Pass1, line: int, kind: AssemblyErrorKind) -> Pass1 {
    Pass1 { errors: st.errors.push(AssemblyError { line: line as usize, kind }), ..st }
}

/// The first pass over one line: labels are bound at the current address,
/// directives fill the tables or move the address, and a line with anything
/// else takes the current address, which then advances.
pub open spec fn pass1_line(st: Pass1, line: Seq<TokenView>, i: int) -> Pass1 {
    let rest = strip_labels(line);
    let bearing = rest.len() > 0 && !is_directive(rest[0]);
    match bind_labels(st.tables.labels, label_names(line), st.addr) {
        None => {
            let st2 = with_error(st, i, AssemblyErrorKind::DuplicateLabel);
            if bearing && st.addr < 1024 {
                Pass1 { addr: st.addr + 1, ..st2 }
            } else {
                st2
            }
        },
        Some(labels) => {
            let st = Pass1 { tables: Tables { labels, ..st.tables }, ..st };
            if rest.len() == 0 {
                st
            } else if rest[0] is ConstantDirective {
                match constant_directive(st.tables.constants, rest) {
                    Err(k) => with_error(st, i, k),
                    Ok((name, v)) => if lookup(st.tables.constants, name) is Some {
                        with_error(st, i, AssemblyErrorKind::DuplicateConstant)
                    } else {
                        Pass1 {
                            tables: Tables {
                                constants: st.tables.constants.push((name, v)),
                                ..st.tables
                            },
                            ..st
                        }
                    },
                }
            } else if rest[0] is NameregDirective {
                match alias_directive(st.tables.aliases, rest) {
                    Err(k) => with_error(st, i, k),
                    Ok((name, r)) => if lookup(st.tables.aliases, name) is Some {
                        with_error(st, i, AssemblyErrorKind::DuplicateAlias)
                    } else {
                        Pass1 {
                            tables: Tables { aliases: st.tables.aliases.push((name, r)), ..st.tables },
                            ..st
                        }
                    },
                }
            } else if rest[0] is AddressDirective {
                match address_directive(st.tables.constants, rest) {
                    Err(k) => with_error(st, i, k),
                    Ok(a) => Pass1 { addr: a, ..st },
                }
            } else if st.addr >= 1024 {
                with_error(st, i, AssemblyErrorKind::AddressOutOfRange)
            } else if occupied(st.placed, st.addr) {
                Pass1 { addr: st.addr + 1, ..with_error(st, i, AssemblyErrorKind::DuplicateAddress) }
            } else {
                Pass1 { placed: st.placed.push((i, st.addr)), addr: st.addr + 1, ..st }
            }
        },
    }
}

/// The first pass over the first `n` lines, from empty tables at address 0.
pub open spec fn pass1(lines: Seq<Seq<TokenView>>, n: nat) -> Pass1
    decreases n,
{
    if n == 0 {
        Pass1 {
            tables: Tables { labels: Seq::empty(), constants: Seq::empty(), aliases: Seq::empty() },
            addr: 0,
            placed: Seq::empty(),
            errors: Seq::empty(),
        }
    } else {
        pass1_line(pass1(lines, (n - 1) as nat), lines[n - 1], n - 1)
    }
}

/// A word looked up as a label, then a constant, then a register name.
pub open spec fn resolve(tables: Tables, t: TokenView) -> TokenView {
    match t {
        TokenView::Word(w) => match lookup(tables.labels, w) {
            Some(a) => TokenView::Address(a),
            None => match lookup(tables.constants, w) {
                Some(v) => TokenView::Number(v, NumberType::Decimal),
                None => match lookup(tables.aliases, w) {
                    Some(r) => TokenView::Register(r),
                    None => t,
                },
            },
        },
        _ => t,
    }
}

pub open spec fn resolve_all(tables: Tables, ts: Seq<TokenView>) -> Seq<TokenView> {
    ts.map_values(|t: TokenView| resolve(tables, t))
}

/// The letter of a token in a line's shape; a tilde has none.
pub open spec fn shape_letter(t: TokenView) -> Seq<char> {
    match t {
        TokenView::Word(_) => seq!['w'],
        TokenView::Instruction(_) => seq!['i'],
        TokenView::Register(_) => seq!['r'],
        TokenView::Number(_, _) => seq!['n'],
        TokenView::Address(_) | TokenView::Label(_) => seq!['a'],
        TokenView::Condition(_) => seq!['c'],
        TokenView::Comma => seq!['C'],
        TokenView::Parentheses => seq!['p'],
        TokenView::Tilda => Seq::empty(),
        _ => seq!['.'],
    }
}

/// The shape of a line: one letter per token.
pub open spec fn shape(ts: Seq<TokenView>) -> Seq<char>
    decreases ts.len(),
{
    if ts.len() == 0 {
        Seq::empty()
    } else {
        shape(ts.drop_last()) + shape_letter(ts.last())
    }
}

pub open spec fn is_reg(t: TokenView) -> bool {
    t is Register && t->Register_0 < 16
}

pub open spec fn reg_of(t: TokenView) -> u8 {
    t->Register_0
}

/// `i`: an instruction alone.
pub open spec fn instr_only(ts: Seq<TokenView>) -> Result<Instruction, AssemblyErrorKind> {
    if ts.len() == 1 && ts[0] is Instruction && ts[0]->Instruction_0 == "return"@ {
        Ok(Instruction::Return)
    } else {
        Err(AssemblyErrorKind::InvalidOperands)
    }
}

/// `ic`: an instruction and a condition.
pub open spec fn instr_condition(ts: Seq<TokenView>) -> Result<Instruction, AssemblyErrorKind> {
    if ts.len() == 2 && ts[0] is Instruction && ts[0]->Instruction_0 == "return"@
        && ts[1] is Condition {
        Ok(Instruction::ReturnCondition { condition: ts[1]->Condition_0 })
    } else {
        Err(AssemblyErrorKind::InvalidOperands)
    }
}

/// The register-register form of a mnemonic.
pub open spec fn reg_reg_instruction(m: Seq<char>, lhs: u8, rhs: u8) -> Option<Instruction> {
    if m == "add"@ {
        Some(Instruction::Add { lhs, rhs })
    } else if m == "addcy"@ {
        Some(Instruction::AddCarry { lhs, rhs })
    } else if m == "and"@ {
        Some(Instruction::And { lhs, rhs })
    } else if m == "compare"@ {
        Some(Instruction::Compare { lhs, rhs })
    } else if m == "comparecy"@ {
        Some(Instruction::CompareCarry { lhs, rhs })
    } else if m == "load"@ {
        Some(Instruction::Load { lhs, rhs })
    } else if m == "or"@ {
        Some(Instruction::Or { lhs, rhs })
    } else if m == "star"@ {
        Some(Instruction::Star { lhs, rhs })
    } else if m == "sub"@ {
        Some(Instruction::Subtract { lhs, rhs })
    } else if m == "subcy"@ {
        Some(Instruction::SubtractCarry { lhs, rhs })
    } else if m == "test"@ {
        Some(Instruction::Test { lhs, rhs })
    } else if m == "testcy"@ {
        Some(Instruction::TestCarry { lhs, rhs })
    } else if m == "xor"@ {
        Some(Instruction::Xor { lhs, rhs })
    } else {
        None
    }
}

/// `irCr`: an instruction, a register, a separator and a register, which a
/// tilde may precede.
pub open spec fn instr_reg_reg(ts: Seq<TokenView>) -> Result<Instruction, AssemblyErrorKind> {
    let rhs_at: int = if ts.len() == 5 {
        4
    } else {
        3
    };
    if (ts.len() == 4 || (ts.len() == 5 && ts[3] is Tilda)) && ts[0] is Instruction && is_reg(ts[1])
        && is_reg(ts[rhs_at]) {
        match reg_reg_instruction(ts[0]->Instruction_0, reg_of(ts[1]), reg_of(ts[rhs_at])) {
            Some(i) => Ok(i),
            None => Err(AssemblyErrorKind::InvalidOperands),
        }
    } else {
        Err(AssemblyErrorKind::InvalidOperands)
    }
}

/// The register-immediate form of a mnemonic.
pub open spec fn reg_num_instruction(m: Seq<char>, lhs: u8, rhs: u32) -> Option<Instruction> {
    if m == "add"@ {
        Some(Instruction::AddConstant { lhs, rhs })
    } else if m == "addcy"@ {
        Some(Instruction::AddCarryConstant { lhs, rhs })
    } else if m == "and"@ {
        Some(Instruction::AndConstant { lhs, rhs })
    } else if m == "compare"@ {
        Some(Instruction::CompareConstant { lhs, rhs })
    } else if m == "comparecy"@ {
        Some(Instruction::CompareCarryConstant { lhs, rhs })
    } else if m == "fetch"@ {
        Some(Instruction::FetchConstant { lhs, rhs })
    } else if m == "input"@ {
        Some(Instruction::InputConstant { lhs, rhs })
    } else if m == "load"@ {
        Some(Instruction::LoadConstant { lhs, rhs })
    } else if m == "load&return"@ {
        Some(Instruction::LoadAndReturn { lhs, rhs })
    } else if m == "or"@ {
        Some(Instruction::OrConstant { lhs, rhs })
    } else if m == "output"@ {
        Some(Instruction::OutputConstant { lhs, rhs })
    } else if m == "store"@ {
        Some(Instruction::StoreConstant { lhs, rhs })
    } else if m == "star"@ {
        Some(Instruction::StarConstant { lhs, rhs })
    } else if m == "sub"@ {
        Some(Instruction::SubtractConstant { lhs, rhs })
    } else if m == "subcy"@ {
        Some(Instruction::SubtractCarryConstant { lhs, rhs })
    } else if m == "test"@ {
        Some(Instruction::TestConstant { lhs, rhs })
    } else if m == "testcy"@ {
        Some(Instruction::TestCarryConstant { lhs, rhs })
    } else if m == "xor"@ {
        Some(Instruction::XorConstant { lhs, rhs })
    } else {
        None
    }
}

/// `irCn`: an instruction, a register, a separator and an immediate byte.
pub open spec fn instr_reg_num(ts: Seq<TokenView>) -> Result<Instruction, AssemblyErrorKind> {
    if ts.len() == 4 && ts[0] is Instruction && is_reg(ts[1]) && ts[3] is Number {
        if ts[3]->Number_0 > 255 {
            Err(AssemblyErrorKind::ImmediateOutOfRange)
        } else {
            match reg_num_instruction(ts[0]->Instruction_0, reg_of(ts[1]), ts[3]->Number_0) {
                Some(i) => Ok(i),
                None => Err(AssemblyErrorKind::InvalidOperands),
            }
        }
    } else {
        Err(AssemblyErrorKind::InvalidOperands)
    }
}

/// The one-register form of a mnemonic.
pub open spec fn reg_instruction(m: Seq<char>, register: u8) -> Option<Instruction> {
    if m == "sl0"@ {
        Some(Instruction::ShiftLeftZero { register })
    } else if m == "sl1"@ {
        Some(Instruction::ShiftLeftOne { register })
    } else if m == "sla"@ {
        Some(Instruction::ShiftLeftArth { register })
    } else if m == "slx"@ {
        Some(Instruction::ShiftLeftCarry { register })
    } else if m == "sr0"@ {
        Some(Instruction::ShiftRightZero { register })
    } else if m == "sr1"@ {
        Some(Instruction::ShiftRightOne { register })
    } else if m == "sra"@ {
        Some(Instruction::ShiftRightArth { register })
    } else if m == "srx"@ {
        Some(Instruction::ShiftRightCarry { register })
    } else if m == "rl"@ {
        Some(Instruction::RotateLeft { register })
    } else if m == "rr"@ {
        Some(Instruction::RotateRight { register })
    } else if m == "hwbuild"@ {
        Some(Instruction::HardwareBuild { register })
    } else {
        None
    }
}

/// `ir`: an instruction and a register.
pub open spec fn instr_reg(ts: Seq<TokenView>) -> Result<Instruction, AssemblyErrorKind> {
    if ts.len() == 2 && ts[0] is Instruction && is_reg(ts[1]) {
        match reg_instruction(ts[0]->Instruction_0, reg_of(ts[1])) {
            Some(i) => Ok(i),
            None => Err(AssemblyErrorKind::InvalidOperands),
        }
    } else {
        Err(AssemblyErrorKind::InvalidOperands)
    }
}

/// `irCprp`: an instruction, a register, a separator and a register in parentheses.
pub open spec fn instr_reg_deref(ts: Seq<TokenView>) -> Result<Instruction, AssemblyErrorKind> {
    if ts.len() == 6 && ts[0] is Instruction && is_reg(ts[1]) && is_reg(ts[4]) {
        let m = ts[0]->Instruction_0;
        let lhs = reg_of(ts[1]);
        let rhs = reg_of(ts[4]);
        if m == "input"@ {
            Ok(Instruction::InputDeref { lhs, rhs })
        } else if m == "output"@ {
            Ok(Instruction::OutputDeref { lhs, rhs })
        } else if m == "fetch"@ {
            Ok(Instruction::FetchDeref { lhs, rhs })
        } else if m == "store"@ {
            Ok(Instruction::StoreDeref { lhs, rhs })
        } else {
            Err(AssemblyErrorKind::InvalidOperands)
        }
    } else {
        Err(AssemblyErrorKind::InvalidOperands)
    }
}

/// `inCn`: an instruction and two immediate bytes.
pub open spec fn instr_num_num(ts: Seq<TokenView>) -> Result<Instruction, AssemblyErrorKind> {
    if ts.len() == 4 && ts[0] is Instruction && ts[0]->Instruction_0 == "outputk"@
        && ts[1] is Number && ts[3] is Number {
        if ts[1]->Number_0 > 255 || ts[3]->Number_0 > 255 {
            Err(AssemblyErrorKind::ImmediateOutOfRange)
        } else {
            Ok(Instruction::OutputDoubleConstant { lhs: ts[1]->Number_0, rhs: ts[3]->Number_0 })
        }
    } else {
        Err(AssemblyErrorKind::InvalidOperands)
    }
}

/// `iprCrp`: an instruction and a register pair in parentheses.
pub open spec fn instr_double_deref(ts: Seq<TokenView>) -> Result<Instruction, AssemblyErrorKind> {
    if ts.len() == 6 && ts[0] is Instruction && is_reg(ts[2]) && is_reg(ts[4]) {
        let m = ts[0]->Instruction_0;
        let first = reg_of(ts[2]);
        let second = reg_of(ts[4]);
        if m == "jump@"@ {
            Ok(Instruction::JumpAt { first, second })
        } else if m == "call@"@ {
            Ok(Instruction::CallAt { first, second })
        } else {
            Err(AssemblyErrorKind::InvalidOperands)
        }
    } else {
        Err(AssemblyErrorKind::InvalidOperands)
    }
}

/// `ia`: an instruction and an address.
pub open spec fn instr_addr(ts: Seq<TokenView>) -> Result<Instruction, AssemblyErrorKind> {
    if ts.len() == 2 && ts[0] is Instruction && ts[1] is Address {
        let m = ts[0]->Instruction_0;
        let address = ts[1]->Address_0;
        if m == "jump"@ {
            Ok(Instruction::Jump { address })
        } else if m == "call"@ {
            Ok(Instruction::Call { address })
        } else {
            Err(AssemblyErrorKind::InvalidOperands)
        }
    } else {
        Err(AssemblyErrorKind::InvalidOperands)
    }
}

/// `icCa`: an instruction, a condition, a separator and an address.
pub open spec fn instr_condition_addr(ts: Seq<TokenView>) -> Result<Instruction, AssemblyErrorKind> {
    if ts.len() == 4 && ts[0] is Instruction && ts[1] is Condition && ts[3] is Address {
        let m = ts[0]->Instruction_0;
        let condition = ts[1]->Condition_0;
        let address = ts[3]->Address_0;
        if m == "jump"@ {
            Ok(Instruction::JumpConditional { condition, address })
        } else if m == "call"@ {
            Ok(Instruction::CallConditional { condition, address })
        } else {
            Err(AssemblyErrorKind::InvalidOperands)
        }
    } else {
        Err(AssemblyErrorKind::InvalidOperands)
    }
}

/// The instruction that two lowercase words name: `regbank a|b`, `returni
/// enable|disable`, `enable|disable interrupt`.
pub open spec fn word_pair(w1: Seq<char>, w2: Seq<char>) -> Result<Instruction, AssemblyErrorKind> {
    if w1 == "regbank"@ && w2 == "a"@ {
        Ok(Instruction::Regbank { selection: 'a' })
    } else if w1 == "regbank"@ && w2 == "b"@ {
        Ok(Instruction::Regbank { selection: 'b' })
    } else if w1 == "returni"@ && w2 == "disable"@ {
        Ok(Instruction::ReturnInterrupt { state: false })
    } else if w1 == "returni"@ && w2 == "enable"@ {
        Ok(Instruction::ReturnInterrupt { state: true })
    } else if w1 == "enable"@ && w2 == "interrupt"@ {
        Ok(Instruction::Interrupt { state: true })
    } else if w1 == "disable"@ && w2 == "interrupt"@ {
        Ok(Instruction::Interrupt { state: false })
    } else {
        Err(AssemblyErrorKind::InvalidOperands)
    }
}

/// `ww`: two words, compared in lowercase.
pub open spec fn word_word(ts: Seq<TokenView>) -> Result<Instruction, AssemblyErrorKind> {
    if ts.len() == 2 && ts[0] is Word && ts[1] is Word {
        word_pair(lower_of(ts[0]->Word_0), lower_of(ts[1]->Word_0))
    } else {
        Err(AssemblyErrorKind::InvalidOperands)
    }
}

/// The instruction of resolved tokens, chosen by their shape.
pub open spec fn decode(ts: Seq<TokenView>) -> Result<Instruction, AssemblyErrorKind> {
    let s = shape(ts);
    if s == "i"@ {
        instr_only(ts)
    } else if s == "ic"@ {
        instr_condition(ts)
    } else if s == "ir"@ {
        instr_reg(ts)
    } else if s == "irCr"@ {
        instr_reg_reg(ts)
    } else if s == "irCn"@ {
        instr_reg_num(ts)
    } else if s == "irCprp"@ {
        instr_reg_deref(ts)
    } else if s == "inCn"@ {
        instr_num_num(ts)
    } else if s == "ia"@ {
        instr_addr(ts)
    } else if s == "icCa"@ {
        instr_condition_addr(ts)
    } else if s == "iprCrp"@ {
        instr_double_deref(ts)
    } else if s == "ww"@ {
        word_word(ts)
    } else {
        Err(AssemblyErrorKind::UnknownPattern)
    }
}

/// The instruction of one source line, its words resolved against the tables.
pub open spec fn decode_line(tables: Tables, line: Seq<TokenView>) -> Result<
    Instruction,
    AssemblyErrorKind,
> {
    decode(resolve_all(tables, strip_labels(line)))
}

/// The second pass over the first `n` placed lines: program slots filled and
/// the errors of lines that do not decode.
pub open spec fn pass2(
    tables: Tables,
    lines: Seq<Seq<TokenView>>,
    placed: Seq<(int, int)>,
    n: nat,
) -> (Seq<Option<Instruction>>, Seq<AssemblyError>)
    decreases n,
{
    if n == 0 {
        (Seq::new(1024, |a: int| None), Seq::empty())
    } else {
        let (slots, errors) = pass2(tables, lines, placed, (n - 1) as nat);
        let (i, a) = placed[n - 1];
        match decode_line(tables, lines[i]) {
            Ok(ins) => (slots.update(a, Some(ins)), errors),
            Err(kind) => (slots, errors.push(AssemblyError { line: i as usize, kind })),
        }
    }
}

/// The filled slots among the first `n`, in address order.
pub open spec fn compact(slots: Seq<Option<Instruction>>, n: nat) -> Seq<(usize, Instruction)>
    decreases n,
{
    if n == 0 {
        Seq::empty()
    } else {
        let rest = compact(slots, (n - 1) as nat);
        match slots[n - 1] {
            Some(i) => rest.push(((n - 1) as usize, i)),
            None => rest,
        }
    }
}

/// The outcome of assembling a token stream.
pub struct Assembly {
    pub tables: Tables,
    pub placed: Seq<(int, int)>,
    pub instructions: Seq<(usize, Instruction)>,
    pub errors: Seq<AssemblyError>,
}

pub open spec fn assemble(ts: Seq<TokenView>) -> Assembly {
    let lines = split_lines(ts);
    let first = pass1(lines, lines.len());
    let (slots, errors2) = pass2(first.tables, lines, first.placed, first.placed.len());
    Assembly {
        tables: first.tables,
        placed: first.placed,
        instructions: compact(slots, 1024),
        errors: first.errors + errors2,
    }
}

/// Every instruction that decodes names registers of the register file.
pub proof fn lemma_decode_wf(ts: Seq<TokenView>)
    ensures
        decode(ts) matches Ok(i) ==> instruction_wf(i),
{
    if ts.len() >= 2 && ts[0] is Instruction && is_reg(ts[1]) {
        let m = ts[0]->Instruction_0;
        if ts.len() == 4 && is_reg(ts[3]) {
            assert(reg_reg_instruction(m, reg_of(ts[1]), reg_of(ts[3])) matches Some(i)
                ==> instruction_wf(i));
        }
        if ts.len() == 5 && is_reg(ts[4]) {
            assert(reg_reg_instruction(m, reg_of(ts[1]), reg_of(ts[4])) matches Some(i)
                ==> instruction_wf(i));
        }
        if ts.len() == 4 && ts[3] is Number {
            assert(reg_num_instruction(m, reg_of(ts[1]), ts[3]->Number_0) matches Some(i)
                ==> instruction_wf(i));
        }
        assert(reg_instruction(m, reg_of(ts[1])) matches Some(i) ==> instruction_wf(i));
    }
}

/// The slots that the second pass fills hold well-formed instructions.
pub proof fn lemma_pass2_wf(
    tables: Tables,
    lines: Seq<Seq<TokenView>>,
    placed: Seq<(int, int)>,
    n: nat,
)
    requires
        n <= placed.len(),
        forall|k: int| 0 <= k < placed.len() ==> 0 <= #[trigger] placed[k].1 < 1024,
    ensures
        pass2(tables, lines, placed, n).0.len() == 1024,
        forall|a: int|
            0 <= a < 1024 && #[trigger] pass2(tables, lines, placed, n).0[a] is Some
                ==> instruction_wf(pass2(tables, lines, placed, n).0[a]->Some_0),
    decreases n,
{
    if n > 0 {
        lemma_pass2_wf(tables, lines, placed, (n - 1) as nat);
        let (i, a) = placed[n - 1];
        lemma_decode_wf(resolve_all(tables, strip_labels(lines[i])));
    }
}

/// The compacted table lists addresses of the store with well-formed instructions.
pub proof fn lemma_compact_wf(slots: Seq<Option<Instruction>>, n: nat)
    requires
        n <= slots.len(),
        slots.len() == 1024,
        forall|a: int| 0 <= a < 1024 && #[trigger] slots[a] is Some ==> instruction_wf(
            slots[a]->Some_0,
        ),
    ensures
        forall|k: int|
            0 <= k < compact(slots, n).len() ==> #[trigger] compact(slots, n)[k].0 < 1024
                && instruction_wf(compact(slots, n)[k].1),
    decreases n,
{
    if n > 0 {
        lemma_compact_wf(slots, (n - 1) as nat);
        let rest = compact(slots, (n - 1) as nat);
        if let Some(i) = slots[n - 1] {
            assert(instruction_wf(i));
            assert forall|k: int| 0 <= k < compact(slots, n).len() implies #[trigger] compact(
                slots,
                n,
            )[k].0 < 1024 && instruction_wf(compact(slots, n)[k].1) by {
                if k < rest.len() {
                    assert(compact(slots, n)[k] == rest[k]);
                }
            }
        }
    }
}

/// Addresses strictly increase along the table: it is ordered and no two
/// instructions share an address.
pub open spec fn strictly_ordered(t: Seq<(usize, Instruction)>) -> bool {
    forall|i: int, j: int| 0 <= i < j < t.len() ==> #[trigger] t[i].0 < #[trigger] t[j].0
}

/// The compacted table is strictly ordered by address, every address below `n`.
pub proof fn lemma_compact_ordered(slots: Seq<Option<Instruction>>, n: nat)
    requires
        n <= slots.len(),
        n <= 1024,
    ensures
        strictly_ordered(compact(slots, n)),
        forall|k: int| 0 <= k < compact(slots, n).len() ==> #[trigger] compact(slots, n)[k].0 < n,
    decreases n,
{
    if n > 0 {
        lemma_compact_ordered(slots, (n - 1) as nat);
        let rest = compact(slots, (n - 1) as nat);
        if let Some(i) = slots[n - 1] {
            let t = compact(slots, n);
            assert forall|k: int| 0 <= k < t.len() implies #[trigger] t[k].0 < n by {
                if k < rest.len() {
                    assert(t[k] == rest[k]);
                }
            }
            assert forall|a: int, b: int| 0 <= a < b < t.len() implies #[trigger] t[a].0
                < #[trigger] t[b].0 by {
                assert(t[a] == rest[a]);
                assert(rest[a].0 < n - 1);
                if b < rest.len() {
                    assert(t[b] == rest[b]);
                } else {
                    assert(t[b] == ((n - 1) as usize, i));
                }
            }
        }
    }
}

} // verus!
