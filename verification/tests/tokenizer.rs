use simple_math_lib::number::Number;
use simple_math_lib::parser::{is_num, is_num_prefix, parse, parse_num, ParseError};
use simple_math_lib::token::Token;

fn num(v: i64) -> Token {
    Token::Num(Number::from_i64(v))
}

fn var(name: &str) -> Token {
    Token::VarGet(name.to_string())
}

fn chars(text: &str) -> Vec<char> {
    text.chars().collect()
}

#[test]
fn every_operator_has_its_token() {
    assert_eq!(
        parse(",)+-*/%&|^~!<<>>**("),
        Ok(vec![
            Token::Separator,
            Token::ParenClose,
            Token::Add,
            Token::Sub,
            Token::Mul,
            Token::Div,
            Token::Rem,
            Token::And,
            Token::Or,
            Token::Xor,
            Token::Not,
            Token::Factorial,
            Token::BitshiftLeft,
            Token::BitshiftRight,
            Token::Pow,
            Token::ParenOpen,
        ])
    );
}

#[test]
fn empty_input_has_no_tokens() {
    assert_eq!(parse(""), Ok(vec![]));
    assert_eq!(parse("  \t\n"), Ok(vec![]));
}

#[test]
fn whitespace_separates_nothing_inside_a_buffer() {
    assert_eq!(parse("1 +\t2\r\n"), Ok(vec![num(1), Token::Add, num(2)]));
    assert_eq!(parse("1 2"), Ok(vec![num(12)]));
    assert_eq!(parse("a b"), Ok(vec![var("ab")]));
}

#[test]
fn number_before_name_is_multiplied() {
    assert_eq!(parse("2x"), Ok(vec![num(2), Token::Mul, var("x")]));
    assert_eq!(parse("3x+1"), Ok(vec![num(3), Token::Mul, var("x"), Token::Add, num(1)]));
    assert_eq!(parse("x2"), Ok(vec![var("x2")]));
}

#[test]
fn number_before_group_is_multiplied() {
    assert_eq!(
        parse("2(3+4)"),
        Ok(vec![
            num(2),
            Token::Mul,
            Token::ParenOpen,
            num(3),
            Token::Add,
            num(4),
            Token::ParenClose,
        ])
    );
}

#[test]
fn name_before_group_is_a_call() {
    assert_eq!(
        parse("f(x,2)"),
        Ok(vec![
            Token::BlockName("f".to_string()),
            Token::ParenOpen,
            var("x"),
            Token::Separator,
            num(2),
            Token::ParenClose,
        ])
    );
    assert_eq!(
        parse("2f(1)"),
        Ok(vec![
            num(2),
            Token::BlockName("f".to_string()),
            Token::ParenOpen,
            num(1),
            Token::ParenClose,
        ])
    );
}

#[test]
fn assignment_target() {
    assert_eq!(parse("x=5"), Ok(vec![Token::VarAssign("x".to_string()), num(5)]));
    assert_eq!(
        parse("f=($1)"),
        Ok(vec![
            Token::VarAssign("f".to_string()),
            Token::ParenOpen,
            var("$1"),
            Token::ParenClose,
        ])
    );
    assert_eq!(
        parse("=5"),
        Err(ParseError::DisallowedVariable(String::new()))
    );
    assert_eq!(
        parse("5=1"),
        Err(ParseError::DisallowedVariable("5".to_string()))
    );
    assert_eq!(
        parse("1.5=1"),
        Err(ParseError::DisallowedVariable("1.5".to_string()))
    );
    assert_eq!(
        parse("$1=2"),
        Err(ParseError::DisallowedVariable("$1".to_string()))
    );
    assert_eq!(
        parse("0xff=2"),
        Err(ParseError::DisallowedVariable("0xff".to_string()))
    );
}

#[test]
fn shifts_need_two_characters() {
    assert_eq!(parse("1<<2"), Ok(vec![num(1), Token::BitshiftLeft, num(2)]));
    assert_eq!(parse("1>>2"), Ok(vec![num(1), Token::BitshiftRight, num(2)]));
    assert_eq!(parse("1<2"), Err(ParseError::UnclosedBitShift('<')));
    assert_eq!(parse("1>2"), Err(ParseError::UnclosedBitShift('>')));
    assert_eq!(parse("1<"), Err(ParseError::UnclosedBitShift('<')));
    assert_eq!(parse("1<>2"), Err(ParseError::UnclosedBitShift('<')));
}

#[test]
fn power_and_times() {
    assert_eq!(parse("2**3"), Ok(vec![num(2), Token::Pow, num(3)]));
    assert_eq!(parse("2* *3"), Ok(vec![num(2), Token::Mul, Token::Mul, num(3)]));
    assert_eq!(parse("2***3"), Ok(vec![num(2), Token::Pow, Token::Mul, num(3)]));
}

#[test]
fn disallowed_characters() {
    assert_eq!(parse("a.b"), Err(ParseError::DisallowedDecimal));
    assert_eq!(parse("0x1.5"), Err(ParseError::DisallowedDecimal));
    assert_eq!(parse("1#"), Err(ParseError::DisallowedChar('#')));
    assert_eq!(parse("a\u{e9}"), Err(ParseError::DisallowedChar('\u{e9}')));
    assert_eq!(parse("\u{e9}"), Err(ParseError::DisallowedChar('\u{e9}')));
    assert_eq!(parse("[1]"), Err(ParseError::DisallowedChar('[')));
}

#[test]
fn literals_in_other_bases() {
    assert_eq!(parse("0x1F"), Ok(vec![num(31)]));
    assert_eq!(parse("0xff"), Ok(vec![num(255)]));
    assert_eq!(parse("0b101"), Ok(vec![num(5)]));
    assert_eq!(parse("0o17"), Ok(vec![num(15)]));
    assert_eq!(parse("0b12"), Ok(vec![num(1), num(2)]));
    assert_eq!(parse("0xg"), Ok(vec![var("0xg")]));
    assert_eq!(parse("0x"), Ok(vec![var("0x")]));
}

#[test]
fn decimal_literals() {
    assert_eq!(
        parse("1.5"),
        Ok(vec![Token::Num(Number::from_parts(vec![15], 1))])
    );
    assert_eq!(
        parse("0.25+.5"),
        Ok(vec![
            Token::Num(Number::from_parts(vec![25], 2)),
            Token::Add,
            Token::Num(Number::from_parts(vec![5], 1)),
        ])
    );
    assert_eq!(parse("1.2.3"), Ok(vec![var("1.2.3")]));
    assert_eq!(parse("1e5"), Ok(vec![num(1), Token::Mul, var("e5")]));
    assert_eq!(parse("0e5"), Ok(vec![num(0), Token::Mul, var("e5")]));
}

#[test]
fn numeric_shape() {
    assert!(is_num(&chars("0")));
    assert!(is_num(&chars("123")));
    assert!(is_num(&chars("1.5")));
    assert!(is_num(&chars(".")));
    assert!(is_num(&chars("0xFf")));
    assert!(is_num(&chars("0b01")));
    assert!(is_num(&chars("0o77")));
    assert!(!is_num(&chars("")));
    assert!(!is_num(&chars("0x")));
    assert!(!is_num(&chars("0b2")));
    assert!(!is_num(&chars("0o8")));
    assert!(!is_num(&chars("0x1.5")));
    assert!(!is_num(&chars("12a")));
    assert!(!is_num(&chars("x")));
}

#[test]
fn radix_prefixes() {
    assert!(is_num_prefix("0x"));
    assert!(is_num_prefix("0o"));
    assert!(is_num_prefix("0b"));
    assert!(!is_num_prefix(""));
    assert!(!is_num_prefix("0"));
    assert!(!is_num_prefix("0X"));
    assert!(!is_num_prefix("0x1"));
    assert!(!is_num_prefix("1x"));
    assert!(!is_num_prefix("xx"));
}

#[test]
fn buffer_as_number() {
    assert_eq!(parse_num(&chars("42")), Some(Number::from_i64(42)));
    assert_eq!(parse_num(&chars("0x10")), Some(Number::from_i64(16)));
    assert_eq!(parse_num(&chars("0b10")), Some(Number::from_i64(2)));
    assert_eq!(parse_num(&chars("0o10")), Some(Number::from_i64(8)));
    assert_eq!(parse_num(&chars("2.50")), Some(Number::from_parts(vec![250, 0], 2)));
    assert_eq!(parse_num(&chars("x")), None);
    assert_eq!(parse_num(&chars("0x")), None);
    assert_eq!(parse_num(&chars("")), None);
    assert_eq!(parse_num(&chars("1.2.3")), None);
}
