//! Classifies lexemes into tokens.
use vstd::prelude::*;
use crate::text::{chars_of, is_text};

verus! {

/// The notation a numeric literal was written in.
#[derive(Debug, Clone, Copy, PartialEq, Eq, Structural)]
pub enum NumberType {
    Decimal,
    Hexadecimal,
    Binary,
}

/// A condition on the flags that gates a jump, a call or a return.
#[derive(Debug, Clone, Copy, PartialEq, Eq, Structural)]
pub enum ConditionType {
    IfZero,
    IfNonZero,
    IfCarry,
    IfNonCarry,
}

/// One classified lexeme of the source.
#[derive(Debug, Clone, PartialEq)]
pub enum Token {
    Word(String),
    Instruction(String),
    Label(String),
    Register(u8),
    Number(u32, NumberType),
    Address(u32),
    Condition(ConditionType),
    ConstantDirective,
    AddressDirective,
    NameregDirective,
    Comma,
    Tilda,
    Parentheses,
    EndOfLine,
}

/// A token as a mathematical value: its text as a character sequence.
pub enum TokenView {
    Word(Seq<char>),
    Instruction(Seq<char>),
    Label(Seq<char>),
    Register(u8),
    Number(u32, NumberType),
    Address(u32),
    Condition(ConditionType),
    ConstantDirective,
    AddressDirective,
    NameregDirective,
    Comma,
    Tilda,
    Parentheses,
    EndOfLine,
}

impl View for Token {
    type V = TokenView;

    open spec fn view(&self) -> TokenView {
        match self {
            Token::Word(s) => TokenView::Word(s@),
            Token::Instruction(s) => TokenView::Instruction(s@),
            Token::Label(s) => TokenView::Label(s@),
            Token::Register(r) => TokenView::Register(*r),
            Token::Number(n, t) => TokenView::Number(*n, *t),
            Token::Address(a) => TokenView::Address(*a),
            Token::Condition(c) => TokenView::Condition(*c),
            Token::ConstantDirective => TokenView::ConstantDirective,
            Token::AddressDirective => TokenView::AddressDirective,
            Token::NameregDirective => TokenView::NameregDirective,
            Token::Comma => TokenView::Comma,
            Token::Tilda => TokenView::Tilda,
            Token::Parentheses => TokenView::Parentheses,
            Token::EndOfLine => TokenView::EndOfLine,
        }
    }
}

/// The views of a sequence of tokens.
pub open spec fn views(ts: Seq<Token>) -> Seq<TokenView> {
    ts.map_values(|t: Token| t@)
}

pub open spec fn is_hex_char(c: char) -> bool {
    ('0' <= c && c <= '9') || ('a' <= c && c <= 'f') || ('A' <= c && c <= 'F')
}

pub open spec fn digit_value(c: char) -> int {
    if '0' <= c && c <= '9' {
        c as int - '0' as int
    } else if 'a' <= c && c <= 'f' {
        c as int - 'a' as int + 10
    } else {
        c as int - 'A' as int + 10
    }
}

/// `c` is a digit of the given radix (2, 10 or 16).
pub open spec fn is_digit_in(c: char, radix: int) -> bool {
    is_hex_char(c) && digit_value(c) < radix
}

pub open spec fn all_digits(w: Seq<char>, radix: int) -> bool {
    forall|i: int| 0 <= i < w.len() ==> is_digit_in(#[trigger] w[i], radix)
}

/// The number that the digits `w` write in the given radix.
pub open spec fn value_of(w: Seq<char>, radix: int) -> int
    decreases w.len(),
{
    if w.len() == 0 {
        0
    } else {
        value_of(w.drop_last(), radix) * radix + digit_value(w.last())
    }
}

/// One of the instruction mnemonics.
pub open spec fn is_mnemonic(w: Seq<char>) -> bool {
    ||| w == "add"@
    ||| w == "addcy"@
    ||| w == "address"@
    ||| w == "and"@
    ||| w == "call"@
    ||| w == "call@"@
    ||| w == "compare"@
    ||| w == "comparecy"@
    ||| w == "constant"@
    ||| w == "fetch"@
    ||| w == "hwbuild"@
    ||| w == "input"@
    ||| w == "jump"@
    ||| w == "jump@"@
    ||| w == "load"@
    ||| w == "load&return"@
    ||| w == "namereg"@
    ||| w == "or"@
    ||| w == "output"@
    ||| w == "outputk"@
    ||| w == "return"@
    ||| w == "rl"@
    ||| w == "rr"@
    ||| w == "sl0"@
    ||| w == "sl1"@
    ||| w == "sla"@
    ||| w == "slx"@
    ||| w == "sr0"@
    ||| w == "sr1"@
    ||| w == "sra"@
    ||| w == "srx"@
    ||| w == "star"@
    ||| w == "store"@
    ||| w == "sub"@
    ||| w == "subcy"@
    ||| w == "test"@
    ||| w == "testcy"@
    ||| w == "xor"@
}

/// `w` ends with a quote and then `tag`.
pub open spec fn has_suffix(w: Seq<char>, tag: char) -> bool {
    w.len() >= 2 && w[w.len() - 2] == '\'' && w[w.len() - 1] == tag
}

/// The token a lexeme stands for; `None` for a malformed decimal literal
/// (no digits, or a value past `u32`).
pub open spec fn classify(w: Seq<char>) -> Option<TokenView> {
    if w == ","@ {
        Some(TokenView::Comma)
    } else if w == "~"@ {
        Some(TokenView::Tilda)
    } else if w == "("@ || w == ")"@ {
        Some(TokenView::Parentheses)
    } else if w == "c"@ {
        Some(TokenView::Condition(ConditionType::IfCarry))
    } else if w == "nc"@ {
        Some(TokenView::Condition(ConditionType::IfNonCarry))
    } else if w == "z"@ {
        Some(TokenView::Condition(ConditionType::IfZero))
    } else if w == "nz"@ {
        Some(TokenView::Condition(ConditionType::IfNonZero))
    } else if w == "constant"@ {
        Some(TokenView::ConstantDirective)
    } else if w == "address"@ {
        Some(TokenView::AddressDirective)
    } else if w == "namereg"@ {
        Some(TokenView::NameregDirective)
    } else if is_mnemonic(w) {
        Some(TokenView::Instruction(w))
    } else if w.len() > 0 && w.last() == ':' {
        Some(TokenView::Label(w.drop_last()))
    } else if w.len() == 2 && all_digits(w, 16) {
        Some(TokenView::Number(value_of(w, 16) as u32, NumberType::Hexadecimal))
    } else if w.len() == 3 && all_digits(w, 16) {
        if value_of(w, 16) <= 1023 {
            Some(TokenView::Address(value_of(w, 16) as u32))
        } else {
            Some(TokenView::Word(w))
        }
    } else if w.len() == 10 && has_suffix(w, 'b') && all_digits(w.subrange(0, 8), 2) {
        Some(TokenView::Number(value_of(w.subrange(0, 8), 2) as u32, NumberType::Binary))
    } else if has_suffix(w, 'd') && all_digits(w.subrange(0, w.len() - 2), 10) {
        let digits = w.subrange(0, w.len() - 2);
        if digits.len() == 0 || value_of(digits, 10) > u32::MAX {
            None
        } else {
            Some(TokenView::Number(value_of(digits, 10) as u32, NumberType::Decimal))
        }
    } else if w.len() == 2 && w[0] == 's' && is_hex_char(w[1]) {
        Some(TokenView::Register(digit_value(w[1]) as u8))
    } else {
        Some(TokenView::Word(w))
    }
}

/// The tokens of one line's lexemes, or the first lexeme that is malformed.
pub open spec fn line_tokens(words: Seq<Seq<char>>) -> Result<Seq<TokenView>, Seq<char>>
    decreases words.len(),
{
    if words.len() == 0 {
        Ok(Seq::empty())
    } else {
        match line_tokens(words.drop_last()) {
            Err(w) => Err(w),
            Ok(ts) => match classify(words.last()) {
                None => Err(words.last()),
                Some(t) => Ok(ts.push(t)),
            },
        }
    }
}

/// The token stream of all lines, each ended by `EndOfLine`, or the index of
/// the first line holding a malformed lexeme together with that lexeme.
pub open spec fn tokens_of(lines: Seq<Seq<Seq<char>>>) -> Result<
    Seq<TokenView>,
    (int, Seq<char>),
>
    decreases lines.len(),
{
    if lines.len() == 0 {
        Ok(Seq::empty())
    } else {
        match tokens_of(lines.drop_last()) {
            Err(e) => Err(e),
            Ok(ts) => match line_tokens(lines.last()) {
                Err(w) => Err((lines.len() - 1, w)),
                Ok(lt) => Ok(ts + lt.push(TokenView::EndOfLine)),
            },
        }
    }
}

/// The lines of lexemes as character sequences.
pub open spec fn lines_view(lines: Seq<Vec<String>>) -> Seq<Seq<Seq<char>>> {
    lines.map_values(|l: Vec<String>| l@.map_values(|s: String| s@))
}

proof fn lemma_line_tokens_error(words: Seq<Seq<char>>, k: int)
    requires
        0 <= k <= words.len(),
        line_tokens(words.subrange(0, k)) is Err,
    ensures
        line_tokens(words) == line_tokens(words.subrange(0, k)),
    decreases words.len() - k,
{
    if k < words.len() {
        assert(words.subrange(0, k + 1).drop_last() =~= words.subrange(0, k));
        lemma_line_tokens_error(words, k + 1);
    } else {
        assert(words.subrange(0, k) =~= words);
    }
}

proof fn lemma_tokens_error(lines: Seq<Seq<Seq<char>>>, k: int)
    requires
        0 <= k <= lines.len(),
        tokens_of(lines.subrange(0, k)) is Err,
    ensures
        tokens_of(lines) == tokens_of(lines.subrange(0, k)),
    decreases lines.len() - k,
{
    if k < lines.len() {
        assert(lines.subrange(0, k + 1).drop_last() =~= lines.subrange(0, k));
        lemma_tokens_error(lines, k + 1);
    } else {
        assert(lines.subrange(0, k) =~= lines);
    }
}

proof fn lemma_value_nonneg(w: Seq<char>, radix: int)
    requires
        radix >= 1,
        all_digits(w, radix),
    ensures
        value_of(w, radix) >= 0,
    decreases w.len(),
{
    if w.len() > 0 {
        assert(all_digits(w.drop_last(), radix)) by {
            assert forall|i: int| 0 <= i < w.drop_last().len() implies is_digit_in(
                #[trigger] w.drop_last()[i],
                radix,
            ) by {
                assert(w.drop_last()[i] == w[i]);
            }
        }
        lemma_value_nonneg(w.drop_last(), radix);
        assert(is_digit_in(w[w.len() - 1], radix));
        assert(value_of(w.drop_last(), radix) * radix >= 0) by (nonlinear_arith)
            requires
                value_of(w.drop_last(), radix) >= 0,
                radix >= 1,
        ;
    }
}

/// A prefix of a digit string never writes a larger number.
proof fn lemma_value_prefix(w: Seq<char>, radix: int, k: int)
    requires
        radix >= 1,
        all_digits(w, radix),
        0 <= k <= w.len(),
    ensures
        value_of(w.subrange(0, k), radix) <= value_of(w, radix),
    decreases w.len(),
{
    if k < w.len() {
        let d = w.drop_last();
        assert(all_digits(d, radix)) by {
            assert forall|i: int| 0 <= i < d.len() implies is_digit_in(#[trigger] d[i], radix) by {
                assert(d[i] == w[i]);
            }
        }
        lemma_value_prefix(d, radix, k);
        assert(d.subrange(0, k) =~= w.subrange(0, k));
        lemma_value_nonneg(d, radix);
        assert(is_digit_in(w[w.len() - 1], radix));
        assert(value_of(d, radix) * radix >= value_of(d, radix)) by (nonlinear_arith)
            requires
                value_of(d, radix) >= 0,
                radix >= 1,
        ;
    } else {
        assert(w.subrange(0, k) =~= w);
    }
}

/// The value of a digit character of radix 16 or less.
fn digit_of(c: char) -> (r: u32)
    requires
        is_hex_char(c),
    ensures
        r == digit_value(c),
{
    if '0' <= c && c <= '9' {
        (c as u32) - ('0' as u32)
    } else if 'a' <= c && c <= 'f' {
        (c as u32) - ('a' as u32) + 10
    } else {
        (c as u32) - ('A' as u32) + 10
    }
}

/// Whether `w[from..to]` are all digits of the radix.
fn all_digits_in(w: &Vec<char>, from: usize, to: usize, radix: u32) -> (r: bool)
    requires
        from <= to <= w.len(),
    ensures
        r == all_digits(w@.subrange(from as int, to as int), radix as int),
{
    let mut k: usize = from;
    while k < to
        invariant
            from <= k <= to <= w.len(),
            all_digits(w@.subrange(from as int, k as int), radix as int),
        decreases to - k,
    {
        let c = w[k];
        let ok = if ('0' <= c && c <= '9') || ('a' <= c && c <= 'f') || ('A' <= c && c <= 'F') {
            digit_of(c) < radix
        } else {
            false
        };
        if !ok {
            assert(w@.subrange(from as int, to as int)[k - from] == c);
            return false;
        }
        assert forall|i: int|
            0 <= i < k + 1 - from implies is_digit_in(
            #[trigger] w@.subrange(from as int, k + 1)[i],
            radix as int,
        ) by {
            if i < k - from {
                assert(w@.subrange(from as int, k + 1)[i] == w@.subrange(from as int, k as int)[i]);
            }
        }
        k = k + 1;
    }
    true
}

/// The number that `w[from..to]` writes in the radix, if it fits in `u32`.
fn parse_digits(w: &Vec<char>, from: usize, to: usize, radix: u32) -> (r: Option<u32>)
    requires
        from <= to <= w.len(),
        2 <= radix <= 16,
        all_digits(w@.subrange(from as int, to as int), radix as int),
    ensures
        r == (if value_of(w@.subrange(from as int, to as int), radix as int) <= u32::MAX {
            Some(value_of(w@.subrange(from as int, to as int), radix as int) as u32)
        } else {
            None
        }),
{
    let ghost full = w@.subrange(from as int, to as int);
    let mut acc: u64 = 0;
    let mut k: usize = from;
    while k < to
        invariant
            from <= k <= to <= w.len(),
            2 <= radix <= 16,
            full == w@.subrange(from as int, to as int),
            all_digits(full, radix as int),
            acc == value_of(w@.subrange(from as int, k as int), radix as int),
            acc <= u32::MAX,
        decreases to - k,
    {
        assert(full[k - from] == w@[k as int]);
        assert(is_digit_in(full[k - from], radix as int));
        let d = digit_of(w[k]);
        assert(acc * (radix as u64) <= u32::MAX * 16) by (nonlinear_arith)
            requires
                acc <= u32::MAX,
                radix <= 16,
        ;
        let next: u64 = acc * (radix as u64) + d as u64;
        assert(w@.subrange(from as int, k + 1).drop_last() =~= w@.subrange(from as int, k as int));
        proof {
            assert(full.subrange(0, k + 1 - from) =~= w@.subrange(from as int, k + 1));
            lemma_value_prefix(full, radix as int, k + 1 - from);
        }
        if next > u32::MAX as u64 {
            return None;
        }
        acc = next;
        k = k + 1;
    }
    assert(w@.subrange(from as int, k as int) =~= full);
    Some(acc as u32)
}

fn is_str_instruction(w: &Vec<char>) -> (r: bool)
    ensures
        r == is_mnemonic(w@),
{
    is_text(w, "add") || is_text(w, "addcy") || is_text(w, "address") || is_text(w, "and")
        || is_text(w, "call") || is_text(w, "call@") || is_text(w, "compare") || is_text(
        w,
        "comparecy",
    ) || is_text(w, "constant") || is_text(w, "fetch") || is_text(w, "hwbuild") || is_text(
        w,
        "input",
    ) || is_text(w, "jump") || is_text(w, "jump@") || is_text(w, "load") || is_text(
        w,
        "load&return",
    ) || is_text(w, "namereg") || is_text(w, "or") || is_text(w, "output") || is_text(
        w,
        "outputk",
    ) || is_text(w, "return") || is_text(w, "rl") || is_text(w, "rr") || is_text(w, "sl0")
        || is_text(w, "sl1") || is_text(w, "sla") || is_text(w, "slx") || is_text(w, "sr0")
        || is_text(w, "sr1") || is_text(w, "sra") || is_text(w, "srx") || is_text(w, "star")
        || is_text(w, "store") || is_text(w, "sub") || is_text(w, "subcy") || is_text(w, "test")
        || is_text(w, "testcy") || is_text(w, "xor")
}

fn is_str_label(w: &Vec<char>) -> (r: bool)
    ensures
        r == (w@.len() > 0 && w@.last() == ':'),
{
    w.len() > 0 && w[w.len() - 1] == ':'
}

fn is_str_hex_number(w: &Vec<char>) -> (r: bool)
    ensures
        r == (w@.len() == 2 && all_digits(w@, 16)),
{
    if w.len() == 2 {
        assert(w@.subrange(0, 2) =~= w@);
        return all_digits_in(w, 0, 2, 16);
    }
    false
}

fn is_str_hex_address(w: &Vec<char>) -> (r: bool)
    ensures
        r == (w@.len() == 3 && all_digits(w@, 16)),
{
    if w.len() == 3 {
        assert(w@.subrange(0, 3) =~= w@);
        return all_digits_in(w, 0, 3, 16);
    }
    false
}

fn has_tag(w: &Vec<char>, tag: char) -> (r: bool)
    ensures
        r == has_suffix(w@, tag),
{
    w.len() >= 2 && w[w.len() - 2] == '\'' && w[w.len() - 1] == tag
}

fn is_str_binary_number(w: &Vec<char>) -> (r: bool)
    ensures
        r == (w@.len() == 10 && has_suffix(w@, 'b') && all_digits(w@.subrange(0, 8), 2)),
{
    if has_tag(w, 'b') {
        return w.len() == 10 && all_digits_in(w, 0, 8, 2);
    }
    false
}

fn is_str_decimal_number(w: &Vec<char>) -> (r: bool)
    ensures
        r == (has_suffix(w@, 'd') && all_digits(w@.subrange(0, w@.len() - 2), 10)),
{
    if has_tag(w, 'd') {
        return all_digits_in(w, 0, w.len() - 2, 10);
    }
    false
}

fn is_str_register(w: &Vec<char>) -> (r: bool)
    ensures
        r == (w@.len() == 2 && w@[0] == 's' && is_hex_char(w@[1])),
{
    if w.len() != 2 {
        return false;
    }
    if w[0] != 's' {
        return false;
    }
    let c = w[1];
    ('0' <= c && c <= '9') || ('a' <= c && c <= 'f') || ('A' <= c && c <= 'F')
}

/// The text of `w` without its last character.
fn without_last(w: &Vec<char>) -> (r: String)
    requires
        w.len() > 0,
    ensures
        r@ == w@.drop_last(),
{
    let mut cs: Vec<char> = Vec::new();
    let mut k: usize = 0;
    while k + 1 < w.len()
        invariant
            k + 1 <= w.len(),
            cs@ == w@.subrange(0, k as int),
        decreases w.len() - k,
    {
        cs.push(w[k]);
        assert(w@.subrange(0, k + 1) =~= w@.subrange(0, k as int).push(w@[k as int]));
        k = k + 1;
    }
    assert(cs@ =~= w@.drop_last());
    crate::text::string_of(&cs)
}

/// Classifies one lexeme; `None` when it is a malformed decimal literal.
fn classify_word(word: &String) -> (r: Option<Token>)
    ensures
        match classify(word@) {
            Some(t) => r matches Some(x) && x@ == t,
            None => r is None,
        },
{
    let w = chars_of(word.as_str());
    if is_text(&w, ",") {
        Some(Token::Comma)
    } else if is_text(&w, "~") {
        Some(Token::Tilda)
    } else if is_text(&w, "(") || is_text(&w, ")") {
        Some(Token::Parentheses)
    } else if is_text(&w, "c") {
        Some(Token::Condition(ConditionType::IfCarry))
    } else if is_text(&w, "nc") {
        Some(Token::Condition(ConditionType::IfNonCarry))
    } else if is_text(&w, "z") {
        Some(Token::Condition(ConditionType::IfZero))
    } else if is_text(&w, "nz") {
        Some(Token::Condition(ConditionType::IfNonZero))
    } else if is_text(&w, "constant") {
        Some(Token::ConstantDirective)
    } else if is_text(&w, "address") {
        Some(Token::AddressDirective)
    } else if is_text(&w, "namereg") {
        Some(Token::NameregDirective)
    } else if is_str_instruction(&w) {
        Some(Token::Instruction(word.clone()))
    } else if is_str_label(&w) {
        Some(Token::Label(without_last(&w)))
    } else if is_str_hex_number(&w) {
        assert(w@.subrange(0, 2) =~= w@);
        let n = parse_digits(&w, 0, 2, 16);
        proof {
            lemma_value_bound(w@, 16);
            reveal_with_fuel(pow_int, 3);
        }
        Some(Token::Number(n.unwrap(), NumberType::Hexadecimal))
    } else if is_str_hex_address(&w) {
        assert(w@.subrange(0, 3) =~= w@);
        let n = parse_digits(&w, 0, 3, 16);
        proof {
            lemma_value_bound(w@, 16);
            reveal_with_fuel(pow_int, 4);
        }
        let v = n.unwrap();
        if v <= 1023 {
            Some(Token::Address(v))
        } else {
            Some(Token::Word(word.clone()))
        }
    } else if is_str_binary_number(&w) {
        let n = parse_digits(&w, 0, 8, 2);
        proof {
            lemma_value_bound(w@.subrange(0, 8), 2);
            reveal_with_fuel(pow_int, 9);
        }
        Some(Token::Number(n.unwrap(), NumberType::Binary))
    } else if is_str_decimal_number(&w) {
        if w.len() == 2 {
            return None;
        }
        match parse_digits(&w, 0, w.len() - 2, 10) {
            Some(n) => Some(Token::Number(n, NumberType::Decimal)),
            None => None,
        }
    } else if is_str_register(&w) {
        let d = digit_of(w[1]);
        Some(Token::Register(d as u8))
    } else {
        Some(Token::Word(word.clone()))
    }
}

/// `b` to the power `n`.
pub open spec fn pow_int(b: int, n: nat) -> int
    decreases n,
{
    if n == 0 {
        1
    } else {
        b * pow_int(b, (n - 1) as nat)
    }
}

/// `n` digits write a number below `radix` to the power `n`.
proof fn lemma_value_bound(w: Seq<char>, radix: int)
    requires
        radix >= 1,
        all_digits(w, radix),
    ensures
        0 <= value_of(w, radix) < pow_int(radix, w.len()),
    decreases w.len(),
{
    if w.len() > 0 {
        let d = w.drop_last();
        assert(all_digits(d, radix)) by {
            assert forall|i: int| 0 <= i < d.len() implies is_digit_in(#[trigger] d[i], radix) by {
                assert(d[i] == w[i]);
            }
        }
        lemma_value_bound(d, radix);
        assert(is_digit_in(w[w.len() - 1], radix));
        let v = value_of(d, radix);
        let p = pow_int(radix, d.len());
        let x = digit_value(w.last());
        assert(pow_int(radix, w.len()) == radix * p);
        assert(0 <= v * radix + x < radix * p) by (nonlinear_arith)
            requires
                0 <= v < p,
                0 <= x < radix,
        ;
    }
}

/// How many lines the tokens end.
pub open spec fn lines_ended(ts: Seq<TokenView>) -> int
    decreases ts.len(),
{
    if ts.len() == 0 {
        0
    } else if ts.last() is EndOfLine {
        lines_ended(ts.drop_last()) + 1
    } else {
        lines_ended(ts.drop_last())
    }
}

/// The decimal literals above 255, each with the index of its line.
pub open spec fn large_literals(ts: Seq<TokenView>) -> Seq<(int, u32)>
    decreases ts.len(),
{
    if ts.len() == 0 {
        Seq::empty()
    } else if ts.last() is Number && ts.last()->Number_1 == NumberType::Decimal
        && ts.last()->Number_0 > 255 {
        large_literals(ts.drop_last()).push((lines_ended(ts.drop_last()), ts.last()->Number_0))
    } else {
        large_literals(ts.drop_last())
    }
}

/// A malformed lexeme, with the index of the line that holds it.
#[derive(Debug, Clone, PartialEq)]
pub struct LexicalError {
    pub line: usize,
    pub word: String,
}

/// Turns lines of lexemes into a flat token stream.
pub struct Tokenizer {
    tokens: Vec<Token>,
}

impl Tokenizer {
    /// The tokens gathered so far.
    pub closed spec fn token_views(&self) -> Seq<TokenView> {
        views(self.tokens@)
    }

    pub fn new() -> (r: Tokenizer)
        ensures
            r.token_views() == Seq::<TokenView>::empty(),
    {
        let r = Tokenizer { tokens: Vec::new() };
        assert(r.token_views() =~= Seq::<TokenView>::empty());
        r
    }

    /// Classifies every lexeme and appends the tokens, each line ended by
    /// `EndOfLine`. A malformed lexeme stops it with nothing appended.
    pub fn tokenize(&mut self, file_contents: Vec<Vec<String>>) -> (r: Result<(), LexicalError>)
        ensures
            match tokens_of(lines_view(file_contents@)) {
                Ok(ts) => r is Ok && final(self).token_views() == old(self).token_views() + ts,
                Err((line, w)) => {
                    &&& r matches Err(e) && e.line == line && e.word@ == w
                    &&& final(self).token_views() == old(self).token_views()
                },
            },
    {
        let ghost lines = lines_view(file_contents@);
        let mut out: Vec<Token> = Vec::new();
        let mut k: usize = 0;
        assert(lines.subrange(0, 0) =~= Seq::<Seq<Seq<char>>>::empty());
        assert(views(out@) =~= Seq::<TokenView>::empty());
        while k < file_contents.len()
            invariant
                k <= file_contents.len(),
                lines == lines_view(file_contents@),
                lines.len() == file_contents.len(),
                tokens_of(lines.subrange(0, k as int)) == Ok::<
                    Seq<TokenView>,
                    (int, Seq<char>),
                >(views(out@)),
                self.token_views() == old(self).token_views(),
            decreases file_contents.len() - k,
        {
            let line = &file_contents[k];
            let ghost words = lines[k as int];
            assert(words == line@.map_values(|s: String| s@)) by {
                assert(words =~= line@.map_values(|s: String| s@));
            }
            let mut line_out: Vec<Token> = Vec::new();
            let mut j: usize = 0;
            assert(words.subrange(0, 0) =~= Seq::<Seq<char>>::empty());
            assert(views(line_out@) =~= Seq::<TokenView>::empty());
            while j < line.len()
                invariant
                    j <= line.len(),
                    words.len() == line.len(),
                    k < file_contents.len(),
                    lines.len() == file_contents.len(),
                    lines == lines_view(file_contents@),
                    words == lines[k as int],
                    line == &file_contents[k as int],
                    self.token_views() == old(self).token_views(),
                    words == line@.map_values(|s: String| s@),
                    tokens_of(lines.subrange(0, k as int)) == Ok::<
                        Seq<TokenView>,
                        (int, Seq<char>),
                    >(views(out@)),
                    line_tokens(words.subrange(0, j as int)) == Ok::<Seq<TokenView>, Seq<char>>(
                        views(line_out@),
                    ),
                decreases line.len() - j,
            {
                assert(words.subrange(0, j + 1).drop_last() =~= words.subrange(0, j as int));
                match classify_word(&line[j]) {
                    None => {
                        proof {
                            assert(words.subrange(0, j + 1).last() == words[j as int]);
                            assert(words[j as int] == line@[j as int]@);
                            assert(line_tokens(words.subrange(0, j + 1)) == Err::<
                                Seq<TokenView>,
                                Seq<char>,
                            >(words[j as int]));
                            lemma_line_tokens_error(words, j + 1);
                            assert(lines.subrange(0, k + 1).last() == words);
                            assert(lines.subrange(0, k + 1).drop_last() =~= lines.subrange(
                                0,
                                k as int,
                            ));
                            lemma_tokens_error(lines, k + 1);
                        }
                        let e = LexicalError { line: k, word: line[j].clone() };
                        return Err(e);
                    },
                    Some(t) => {
                        let ghost prev = line_out@;
                        line_out.push(t);
                        assert(views(line_out@) =~= views(prev).push(t@));
                    },
                }
                j = j + 1;
            }
            assert(words.subrange(0, j as int) =~= words);
            let ghost before = out@;
            let ghost added = line_out@;
            out.append(&mut line_out);
            out.push(Token::EndOfLine);
            assert(out@ =~= before + added.push(Token::EndOfLine));
            assert(lines.subrange(0, k + 1).drop_last() =~= lines.subrange(0, k as int));
            assert(views(out@) =~= views(before) + views(added).push(TokenView::EndOfLine));
            k = k + 1;
        }
        assert(lines.subrange(0, k as int) =~= lines);
        let ghost start = self.tokens@;
        let ghost added = out@;
        self.tokens.append(&mut out);
        assert(views(self.tokens@) =~= views(start) + views(added));
        Ok(())
    }

    /// Each decimal literal above 255 among the tokens, with the index of its
    /// line: such a value does not fit in a byte.
    pub fn warnings(&self) -> (r: Vec<(usize, u32)>)
        ensures
            r@.map_values(|w: (usize, u32)| (w.0 as int, w.1)) == large_literals(
                self.token_views(),
            ),
    {
        let ghost tv = self.token_views();
        let mut out: Vec<(usize, u32)> = Vec::new();
        let mut line: usize = 0;
        let mut k: usize = 0;
        assert(tv.subrange(0, 0) =~= Seq::<TokenView>::empty());
        assert(out@.map_values(|w: (usize, u32)| (w.0 as int, w.1)) =~= Seq::<(int, u32)>::empty());
        while k < self.tokens.len()
            invariant
                k <= self.tokens.len(),
                tv == self.token_views(),
                tv == views(self.tokens@),
                line as int == lines_ended(tv.subrange(0, k as int)),
                line <= k,
                out@.map_values(|w: (usize, u32)| (w.0 as int, w.1)) == large_literals(
                    tv.subrange(0, k as int),
                ),
            decreases self.tokens.len() - k,
        {
            assert(tv.subrange(0, k + 1).drop_last() =~= tv.subrange(0, k as int));
            assert(tv.subrange(0, k + 1).last() == self.tokens@[k as int]@);
            let ghost prev = out@;
            match &self.tokens[k] {
                Token::Number(v, NumberType::Decimal) => {
                    if *v > 255 {
                        out.push((line, *v));
                        assert(out@.map_values(|w: (usize, u32)| (w.0 as int, w.1)) =~= prev.map_values(
                            |w: (usize, u32)| (w.0 as int, w.1),
                        ).push((line as int, *v)));
                    }
                },
                Token::EndOfLine => {
                    line = line + 1;
                },
                _ => {},
            }
            k = k + 1;
        }
        assert(tv.subrange(0, k as int) =~= tv);
        out
    }

    pub fn get_tokens(&self) -> (r: &Vec<Token>)
        ensures
            views(r@) == self.token_views(),
    {
        &self.tokens
    }
}

} // verus!
