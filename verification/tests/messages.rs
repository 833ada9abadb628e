use simple_math_lib::calculator::CalcError;
use simple_math_lib::number::Number;
use simple_math_lib::parser::{parse, ParseError};
use simple_math_lib::token::Token;

#[test]
fn every_token_has_its_text() {
    assert_eq!(Token::BlockName("f".to_string()).to_text(), "\"f\"");
    assert_eq!(Token::Num(Number::from_i64(42)).to_text(), "Number 42");
    assert_eq!(Token::ParenClose.to_text(), ")");
    assert_eq!(Token::ParenOpen.to_text(), "(");
    assert_eq!(Token::Separator.to_text(), ",");
    assert_eq!(
        Token::VarAssign("x".to_string()).to_text(),
        "Variable assignment \"x\""
    );
    assert_eq!(Token::VarGet("x".to_string()).to_text(), "Variable \"x\"");
    assert_eq!(Token::Add.to_text(), "Plus (+)");
    assert_eq!(Token::And.to_text(), "Bitwise AND (&)");
    assert_eq!(Token::BitshiftLeft.to_text(), "Bitshift left (<<)");
    assert_eq!(Token::BitshiftRight.to_text(), "Bitshift right (>>)");
    assert_eq!(Token::Div.to_text(), "Division symbol (/)");
    assert_eq!(Token::Factorial.to_text(), "Factorial (!)");
    assert_eq!(Token::Mul.to_text(), "Times (*)");
    assert_eq!(Token::Not.to_text(), "Bitwise NOT (~)");
    assert_eq!(Token::Or.to_text(), "Bitwise OR (|)");
    assert_eq!(Token::Pow.to_text(), "Exponential (**)");
    assert_eq!(Token::Rem.to_text(), "Remainder (%)");
    assert_eq!(Token::Sub.to_text(), "Minus (-)");
    assert_eq!(Token::Xor.to_text(), "Bitwise XOR (^)");
}

#[test]
fn tokens_of_an_expression_render_the_same_each_time() {
    let tokens = parse("f(2x,-1.5)**3!").unwrap();
    let first: Vec<String> = tokens.iter().map(|t| t.to_text()).collect();
    let second: Vec<String> = parse("f(2x,-1.5)**3!")
        .unwrap()
        .iter()
        .map(|t| t.to_text())
        .collect();
    assert_eq!(first, second);
    assert_eq!(
        first,
        vec![
            "\"f\"",
            "(",
            "Number 2",
            "Times (*)",
            "Variable \"x\"",
            ",",
            "Minus (-)",
            "Number 1.5",
            ")",
            "Exponential (**)",
            "Number 3",
            "Factorial (!)",
        ]
    );
}

#[test]
fn parse_error_messages() {
    assert_eq!(
        ParseError::DisallowedChar('#').to_text(),
        "Character '#' neither a number nor a valid letter in a function or variable name."
    );
    assert_eq!(
        ParseError::DisallowedDecimal.to_text(),
        "You may only use whole numbers in this context"
    );
    assert_eq!(
        ParseError::DisallowedVariable("$1".to_string()).to_text(),
        "\"$1\" is not a valid variable name."
    );
    assert_eq!(
        ParseError::UnclosedBitShift('<').to_text(),
        "Character '<' isn't followed by another '<'.\nLooks like a failed attempt to bitshift."
    );
    assert_eq!(
        ParseError::DisallowedChar('#').description(),
        "A character you used was not allowed"
    );
    assert_eq!(
        ParseError::DisallowedDecimal.description(),
        "You may only use whole numbers in this context"
    );
    assert_eq!(
        ParseError::DisallowedVariable("x".to_string()).description(),
        "Not a valid variable name."
    );
    assert_eq!(
        ParseError::UnclosedBitShift('>').description(),
        "A < or > wasn't followed by another one, which is the way to bitshift"
    );
}

#[test]
fn calc_error_messages() {
    assert_eq!(CalcError::DivideByZero.to_text(), "Cannot divide by zero");
    assert_eq!(
        CalcError::ExpectedEOF(Token::ParenClose).to_text(),
        "Expected EOF, found )"
    );
    assert_eq!(
        CalcError::ExpectedEOF(Token::Num(Number::from_i64(7))).to_text(),
        "Expected EOF, found Number 7"
    );
    assert_eq!(
        CalcError::IncorrectArguments(2, 10).to_text(),
        "Incorrect amount of arguments (Expected 2, got 10)"
    );
    assert_eq!(
        CalcError::IncorrectArguments(1, 0).to_text(),
        "Incorrect amount of arguments (Expected 1, got 0)"
    );
    assert_eq!(CalcError::InvalidSyntax.to_text(), "Invalid syntax");
    assert_eq!(
        CalcError::NotAPositive.to_text(),
        "You may only do this on positive numbers"
    );
    assert_eq!(
        CalcError::NotAPrimitive("i64").to_text(),
        "Number must fit the range of a i64 primitive"
    );
    assert_eq!(
        CalcError::NotAWhole.to_text(),
        "You may only do this on whole numbers"
    );
    assert_eq!(
        CalcError::ParseError(ParseError::DisallowedDecimal).to_text(),
        "Parse error: You may only use whole numbers in this context"
    );
    assert_eq!(
        CalcError::SeparatorInDef.to_text(),
        "A function definition cannot have multiple arguments"
    );
    assert_eq!(
        CalcError::TooDeep.to_text(),
        "Too many levels deep. This could be an issue with endless recursion."
    );
    assert_eq!(
        CalcError::TooLarge.to_text(),
        "You can only do this operation on smaller numbers"
    );
    assert_eq!(CalcError::UnclosedParen.to_text(), "Unclosed parentheses");
    assert_eq!(
        CalcError::UnknownFunction("g".to_string()).to_text(),
        "Unknown function \"g\"\nHint: Cannot assume multiplication of variables because of ambiguity"
    );
    assert_eq!(
        CalcError::UnknownVariable("y".to_string()).to_text(),
        "Unknown variable \"y\""
    );
}

#[test]
fn calc_error_descriptions() {
    assert_eq!(CalcError::DivideByZero.description(), "Cannot divide by zero");
    assert_eq!(CalcError::ExpectedEOF(Token::Add).description(), "Expected EOF");
    assert_eq!(
        CalcError::IncorrectArguments(1, 2).description(),
        "Incorrect amount of arguments!"
    );
    assert_eq!(CalcError::InvalidSyntax.description(), "Invalid syntax");
    assert_eq!(
        CalcError::NotAPositive.description(),
        "You may only do this on positive numbers"
    );
    assert_eq!(
        CalcError::NotAPrimitive("usize").description(),
        "Number must fit the range of a primitive"
    );
    assert_eq!(
        CalcError::NotAWhole.description(),
        "You may only do this on whole numbers"
    );
    assert_eq!(
        CalcError::ParseError(ParseError::DisallowedDecimal).description(),
        "Parse error"
    );
    assert_eq!(
        CalcError::SeparatorInDef.description(),
        "A function definition cannot have multiple arguments"
    );
    assert_eq!(CalcError::TooDeep.description(), "Too many levels deep");
    assert_eq!(
        CalcError::TooLarge.description(),
        "You can only do this operation on smaller numbers"
    );
    assert_eq!(CalcError::UnclosedParen.description(), "Unclosed parentheses");
    assert_eq!(
        CalcError::UnknownFunction("g".to_string()).description(),
        "Unknown function"
    );
    assert_eq!(
        CalcError::UnknownVariable("y".to_string()).description(),
        "Unknown variable"
    );
}
