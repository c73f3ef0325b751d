use picoblaze::parser::{word_pair_instruction, Instruction, Parser};
use picoblaze::reader::{split_inclusive, Reader};
use picoblaze::syntax::{AssemblyError, AssemblyErrorKind};
use picoblaze::tokenizer::{LexicalError, Tokenizer};
use picoblaze::{ConditionType, NumberType, Token};

fn lexemes(source: &str) -> Vec<Vec<String>> {
    let mut reader = Reader::new();
    reader.read_buffer_and_split(source.to_string());
    reader.get_contents().clone()
}

fn tokens(source: &str) -> Vec<Token> {
    let mut tokenizer = Tokenizer::new();
    tokenizer.tokenize(lexemes(source)).unwrap();
    tokenizer.get_tokens().clone()
}

fn parse(source: &str) -> (Parser, Result<(), Vec<AssemblyError>>) {
    let mut parser = Parser::new();
    let r = parser.parse(tokens(source));
    (parser, r)
}

#[test]
fn reader_lowercases_strips_comments_and_splits() {
    let contents = lexemes("  LOAD S0, FF ; set it\n\n; only a comment\nJUMP@ ( S1 , S2 )\nOR s0,~s1\n");
    assert_eq!(
        contents,
        vec![
            vec!["load", "s0", ",", "ff"],
            vec!["jump@", "(", "s1", ",", "s2", ")"],
            vec!["or", "s0", ",", "~", "s1"],
        ]
    );
}

#[test]
fn tokenizer_classifies_lexemes() {
    let ts = tokens("label: load s1, 0a\ncall nz, 3ff\nadd s2, 10010001'b\nsub s3, 200'd\ncall fff\n");
    assert_eq!(
        ts,
        vec![
            Token::Label("label".to_string()),
            Token::Instruction("load".to_string()),
            Token::Register(1),
            Token::Comma,
            Token::Number(10, NumberType::Hexadecimal),
            Token::EndOfLine,
            Token::Instruction("call".to_string()),
            Token::Condition(ConditionType::IfNonZero),
            Token::Comma,
            Token::Address(0x3ff),
            Token::EndOfLine,
            Token::Instruction("add".to_string()),
            Token::Register(2),
            Token::Comma,
            Token::Number(0b10010001, NumberType::Binary),
            Token::EndOfLine,
            Token::Instruction("sub".to_string()),
            Token::Register(3),
            Token::Comma,
            Token::Number(200, NumberType::Decimal),
            Token::EndOfLine,
            Token::Instruction("call".to_string()),
            Token::Word("fff".to_string()),
            Token::EndOfLine,
        ]
    );
}

#[test]
fn tokenizer_rejects_malformed_decimal() {
    let mut tokenizer = Tokenizer::new();
    let r = tokenizer.tokenize(vec![vec!["load".to_string()], vec!["'d".to_string()]]);
    assert_eq!(r, Err(LexicalError { line: 1, word: "'d".to_string() }));
    assert!(tokenizer.get_tokens().is_empty());
    let r = tokenizer.tokenize(vec![vec!["99999999999'd".to_string()]]);
    assert!(r.is_err());
}

#[test]
fn parser_builds_instructions() {
    let (parser, r) = parse("start: load s1, 05\nsl1 s1\nreturn c\njump start\nstore s1, (s2)\noutputk 01, 02\nenable interrupt\n");
    assert_eq!(r, Ok(()));
    assert_eq!(
        parser.get_instructions(),
        &vec![
            (0, Instruction::LoadConstant { lhs: 1, rhs: 5 }),
            (1, Instruction::ShiftLeftOne { register: 1 }),
            (2, Instruction::ReturnCondition { condition: ConditionType::IfCarry }),
            (3, Instruction::Jump { address: 0 }),
            (4, Instruction::StoreDeref { lhs: 1, rhs: 2 }),
            (5, Instruction::OutputDoubleConstant { lhs: 1, rhs: 2 }),
            (6, Instruction::Interrupt { state: true }),
        ]
    );
    assert_eq!(parser.find_label(&"start".to_string()).map(|l| l.1), Some(0));
    assert!(parser.find_label(&"nowhere".to_string()).is_none());
}

#[test]
fn parser_reports_each_bad_line() {
    let (parser, r) = parse("here: load s0, 01\nhere: load s0, 02\nload s0, 300'd\nfoo bar baz\nconstant k, 01\nconstant k, 02\nnamereg s1, reg\nnamereg s2, reg\naddress 000\nload s0, 03\n");
    assert_eq!(
        r,
        Err(vec![
            AssemblyError { line: 1, kind: AssemblyErrorKind::DuplicateLabel },
            AssemblyError { line: 5, kind: AssemblyErrorKind::DuplicateConstant },
            AssemblyError { line: 7, kind: AssemblyErrorKind::DuplicateAlias },
            AssemblyError { line: 9, kind: AssemblyErrorKind::DuplicateAddress },
            AssemblyError { line: 2, kind: AssemblyErrorKind::ImmediateOutOfRange },
            AssemblyError { line: 3, kind: AssemblyErrorKind::UnknownPattern },
        ])
    );
    assert_eq!(parser.get_constants().len(), 1);
    assert_eq!(parser.get_aliases().len(), 1);
    assert_eq!(parser.get_labels().len(), 1);
}

#[test]
fn parser_rejects_undefined_and_malformed_directives() {
    let (_, r) = parse("address nothing\nconstant x\njump s0\n");
    assert_eq!(
        r,
        Err(vec![
            AssemblyError { line: 0, kind: AssemblyErrorKind::UndefinedSymbol },
            AssemblyError { line: 1, kind: AssemblyErrorKind::MalformedDirective },
            AssemblyError { line: 2, kind: AssemblyErrorKind::InvalidOperands },
        ])
    );
}

#[test]
fn words_are_compared_in_lowercase() {
    let mut parser = Parser::new();
    let r = parser.parse(vec![
        Token::Word("REGBANK".to_string()),
        Token::Word("B".to_string()),
        Token::EndOfLine,
    ]);
    assert_eq!(r, Ok(()));
    assert_eq!(parser.get_instructions(), &vec![(0, Instruction::Regbank { selection: 'b' })]);
}

#[test]
fn empty_source_assembles_to_nothing() {
    let (parser, r) = parse("");
    assert_eq!(r, Ok(()));
    assert!(parser.get_instructions().is_empty());
    let (parser, r) = parse("; nothing but a comment\n   \n");
    assert_eq!(r, Ok(()));
    assert!(parser.get_instructions().is_empty());
}

#[test]
fn addresses_past_the_store_are_rejected() {
    let (parser, r) = parse("address 3ff\nload s0, 01\nload s0, 02\n");
    assert_eq!(r, Err(vec![AssemblyError { line: 2, kind: AssemblyErrorKind::AddressOutOfRange }]));
    assert_eq!(parser.get_instructions(), &vec![(1023, Instruction::LoadConstant { lhs: 0, rhs: 1 })]);
    let (_, r) = parse("address 1024'd\n");
    assert_eq!(r, Err(vec![AssemblyError { line: 0, kind: AssemblyErrorKind::AddressOutOfRange }]));
}

#[test]
fn lowercase_word_pairs_and_pieces() {
    assert_eq!(
        word_pair_instruction(&"returni".to_string(), &"enable".to_string()),
        Ok(Instruction::ReturnInterrupt { state: true })
    );
    assert_eq!(
        word_pair_instruction(&"disable".to_string(), &"interrupt".to_string()),
        Ok(Instruction::Interrupt { state: false })
    );
    assert_eq!(
        word_pair_instruction(&"REGBANK".to_string(), &"a".to_string()),
        Err(AssemblyErrorKind::InvalidOperands)
    );
    assert_eq!(split_inclusive("(s1,s2)", ",()~"), vec!["(", "s1", ",", "s2", ")"]);
    assert_eq!(split_inclusive("~s3", ",()~"), vec!["~", "s3"]);
    assert!(split_inclusive("", ",").is_empty());
}

#[test]
fn decimal_literals_above_a_byte_are_flagged() {
    let mut tokenizer = Tokenizer::new();
    tokenizer.tokenize(lexemes("load s0, 255'd\nload s1, 256'd\nadd s2, 01\nsub s3, 1000'd\n")).unwrap();
    assert_eq!(tokenizer.warnings(), vec![(1, 256), (3, 1000)]);
    let mut tokenizer = Tokenizer::new();
    tokenizer.tokenize(lexemes("load s0, ff\n")).unwrap();
    assert!(tokenizer.warnings().is_empty());
}
