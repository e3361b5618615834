use siliconvm::engine::Type as Value;
use siliconvm::number::parse_u64;
use siliconvm::parse::{build, Environment, Operation, OperationNode, ParseError, RunError, TokenStream, NumericNode, Node};
use siliconvm::token::Token;

fn word(s: &str) -> Token {
    Token::Word(s.to_string())
}

fn program() -> Vec<Token> {
    vec![
        Token::Newline,
        Token::Main,
        Token::Newline,
        Token::BlockIn,
        Token::Newline,
        Token::Var,
        word("greeting"),
        Token::Colin,
        word("String"),
        Token::Assign,
        Token::Str("hello".to_string()),
        Token::Newline,
        Token::Var,
        word("count"),
        Token::Colin,
        word("Int"),
        Token::Assign,
        Token::Num("42".to_string()),
        Token::Print,
        word("greeting"),
        Token::Print,
        word("count"),
        Token::Print,
        Token::Num("7".to_string()),
        Token::BlockOut,
        Token::Newline,
    ]
}

#[test]
fn build_and_run_program() {
    let file = build(program()).unwrap();
    assert_eq!(file.main_functions().len(), 1);
    assert_eq!(file.main_functions()[0].children().len(), 5);
    let mut env = Environment::new();
    let mut out: Vec<String> = vec![];
    assert_eq!(file.run(&mut env, &mut out), Ok(()));
    assert_eq!(out, vec!["hello".to_string(), "42".to_string(), "7".to_string()]);
    match env.lookup(&"count".to_string()) {
        Some(Value::Num(n)) => assert_eq!(n, 42),
        _ => panic!("count is not bound to a number"),
    }
}

#[test]
fn later_declaration_shadows() {
    let tokens = vec![
        Token::Main,
        Token::BlockIn,
        Token::Var,
        word("x"),
        Token::Colin,
        word("Int"),
        Token::Assign,
        Token::Num("1".to_string()),
        Token::Var,
        word("x"),
        Token::Colin,
        word("Int"),
        Token::Assign,
        Token::Num("2".to_string()),
        Token::Print,
        word("x"),
        Token::BlockOut,
    ];
    let file = build(tokens).unwrap();
    let mut env = Environment::new();
    let mut out: Vec<String> = vec![];
    file.run(&mut env, &mut out).unwrap();
    assert_eq!(out, vec!["2".to_string()]);
}

#[test]
fn parse_errors() {
    assert_eq!(build(vec![Token::Print]).err(), Some(ParseError::UnexpectedToken));
    assert_eq!(build(vec![Token::Main, Token::BlockIn, Token::Print]).err(), Some(ParseError::UnexpectedEof));
    assert_eq!(build(vec![Token::Main, Token::Newline]).err(), Some(ParseError::UnexpectedEof));
    assert_eq!(
        build(vec![Token::Main, Token::BlockIn, Token::Print, Token::Num("12ab".to_string()), Token::BlockOut]).err(),
        Some(ParseError::InvalidNumber)
    );
    assert_eq!(
        build(vec![Token::Main, Token::BlockIn, Token::Var, word("x"), Token::Assign]).err(),
        Some(ParseError::UnexpectedToken)
    );
}

#[test]
fn empty_file_has_no_main() {
    let file = build(vec![Token::Newline]).unwrap();
    let mut env = Environment::new();
    let mut out: Vec<String> = vec![];
    assert_eq!(file.run(&mut env, &mut out), Err(RunError::NoMain));
}

#[test]
fn undefined_name_is_an_error() {
    let file = build(vec![Token::Main, Token::BlockIn, Token::Print, word("nope"), Token::BlockOut]).unwrap();
    let mut env = Environment::new();
    let mut out: Vec<String> = vec![];
    assert_eq!(file.run(&mut env, &mut out), Err(RunError::Undefined));
    assert!(out.is_empty());
}

#[test]
fn token_stream_moves_both_ways() {
    let mut stream = TokenStream::new(vec![Token::Main, word("a")]);
    assert!(matches!(stream.next(), Some(Token::Main)));
    stream.back();
    assert!(matches!(stream.next(), Some(Token::Main)));
    assert!(matches!(stream.next(), Some(Token::Word(w)) if w == "a"));
    assert!(stream.next().is_none());
}

#[test]
fn numbers_parse_like_std() {
    assert_eq!(parse_u64("0"), Some(0));
    assert_eq!(parse_u64("+15"), Some(15));
    assert_eq!(parse_u64("18446744073709551615"), Some(u64::MAX));
    assert_eq!(parse_u64("18446744073709551616"), None);
    assert_eq!(parse_u64(""), None);
    assert_eq!(parse_u64("+"), None);
    assert_eq!(parse_u64("-1"), None);
    assert_eq!(parse_u64("1_000"), None);
}

#[test]
fn addition_operation() {
    assert!(matches!(Operation::Addition.operate(Value::Num(2), Value::Num(3)), Ok(Value::Num(5))));
    assert!(matches!(Operation::Addition.operate(Value::Num(u64::MAX), Value::Num(1)), Err(RunError::Overflow)));
    assert!(matches!(
        Operation::Addition.operate(Value::String("a".to_string()), Value::Num(1)),
        Err(RunError::NotANumber)
    ));
    assert!(OperationNode::new(Operation::Addition).is_operation());
    assert!(!NumericNode::new(3).is_operation());
}

#[test]
fn lexemes_become_tokens() {
    assert!(matches!(Token::from_lexer("main "), Ok(Some(Token::Main))));
    assert!(matches!(Token::from_lexer("->"), Ok(Some(Token::ReturnType))));
    assert!(matches!(Token::from_lexer("\r\n"), Ok(Some(Token::Newline))));
    assert!(matches!(Token::from_lexer("==="), Ok(Some(Token::IdEquality))));
    assert!(matches!(Token::from_lexer(" "), Ok(None)));
    assert!(matches!(Token::from_lexer("# a comment\n"), Ok(None)));
    assert!(matches!(Token::from_lexer("\"\"hi there\""), Ok(Some(Token::Str(s))) if s == "hi there"));
    assert!(matches!(Token::from_lexer("0x4B9"), Ok(Some(Token::Hex(s))) if s == "0x4B9"));
    assert!(matches!(Token::from_lexer("foo1"), Ok(Some(Token::Word(s))) if s == "foo1"));
    assert!(matches!(Token::from_lexer("11"), Ok(Some(Token::Num(s))) if s == "11"));
    assert!(Token::from_lexer("").is_err());
    assert!(Token::from_lexer("@").is_err());
}

#[test]
fn tokens_render_as_source() {
    assert_eq!(Token::Ctor.to_text(), "constructor");
    assert_eq!(Token::Str("hi".to_string()).to_text(), "\"hi\"");
    assert_eq!(Token::PlusAssign.to_text(), "+=");
    assert_eq!(Token::Newline.to_text(), "\n");
    assert_eq!(Token::Word("x".to_string()).to_text(), "x");
}
