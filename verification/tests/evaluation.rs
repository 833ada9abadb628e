use simple_math_lib::calculator::CalcError;
use simple_math_lib::environment::{Functions, Variables};
use simple_math_lib::number::Number;
use simple_math_lib::parse_and_calc;
use simple_math_lib::parser::ParseError;
use simple_math_lib::token::Token;

fn eval(input: &str) -> Result<Number, CalcError> {
    let mut variables = Variables::new();
    let mut functions = Functions::new();
    parse_and_calc(input, &mut variables, &mut functions)
}

fn text(input: &str) -> String {
    eval(input).expect("evaluation failed").to_text()
}

fn decimal(text: &str) -> Number {
    Number::from_decimal_text(text).expect("not a literal")
}

#[test]
fn sum_and_product_of_integers_are_exact() {
    assert_eq!(eval("2+3"), Ok(Number::from_i64(5)));
    assert_eq!(eval("6*7"), Ok(Number::from_i64(42)));
    assert_eq!(
        text("123456789012345678901234567890+987654321098765432109876543210"),
        "1111111110111111111011111111100"
    );
    assert_eq!(
        text("123456789012345678901234567890*987654321098765432109876543210"),
        "121932631137021795226185032733622923332237463801111263526900"
    );
    assert_eq!(eval("0+0"), Ok(Number::from_i64(0)));
    assert_eq!(eval("1*9"), Ok(Number::from_i64(9)));
}

#[test]
fn decimal_sums_have_no_drift() {
    assert_eq!(text("0.1+0.2"), "0.3");
    assert_eq!(text("1.10+2.205"), "3.305");
    assert_eq!(text("1.5*1.5"), "2.25");
    assert_eq!(text("10-0.01"), "9.99");
}

#[test]
fn division_and_modulo_by_zero_fail() {
    assert_eq!(eval("5/0"), Err(CalcError::DivideByZero));
    assert_eq!(eval("5%0"), Err(CalcError::DivideByZero));
    assert_eq!(eval("5%0.5"), Err(CalcError::DivideByZero));
    assert_eq!(eval("0/0"), Err(CalcError::DivideByZero));
}

#[test]
fn division_and_modulo() {
    assert_eq!(text("6/3"), "2");
    assert_eq!(text("1/4"), "0.25");
    assert!(eval("1/3").unwrap().same_value(&decimal(
        "0.3333333333333333333333333333333333333333333333333333333333333333333333333333333333333333333333333333"
    )));
    assert_eq!(eval("7%3"), Ok(Number::from_i64(1)));
    assert_eq!(eval("(-7)%3"), Ok(Number::from_i64(-1)));
    assert_eq!(eval("7.9%3.9"), Ok(Number::from_i64(1)));
}

#[test]
fn powers() {
    assert_eq!(eval("2**10"), Ok(Number::from_i64(1024)));
    assert!(eval("2**-1").unwrap().same_value(&decimal("0.5")));
    assert_eq!(eval("(-3)**2"), Err(CalcError::NotAPositive));
    assert_eq!(eval("2**0"), Ok(Number::from_i64(1)));
    assert_eq!(eval("0**0"), Ok(Number::from_i64(1)));
    assert_eq!(eval("2**0.5"), Err(CalcError::NotAWhole));
    assert_eq!(eval("0**-1"), Err(CalcError::DivideByZero));
    assert_eq!(eval("2**3**2"), Ok(Number::from_i64(512)));
    assert_eq!(text("1.5**2"), "2.25");
    assert_eq!(text("2**100"), "1267650600228229401496703205376");
    assert_eq!(eval("pow(2,10)"), Ok(Number::from_i64(1024)));
    assert_eq!(eval("pow(2)"), Err(CalcError::IncorrectArguments(2, 1)));
}

#[test]
fn factorials() {
    assert_eq!(eval("5!"), Ok(Number::from_i64(120)));
    assert_eq!(eval("0!"), Ok(Number::from_i64(1)));
    assert_eq!(eval("(-1)!"), Err(CalcError::NotAPositive));
    assert_eq!(eval("2.5!"), Err(CalcError::NotAWhole));
    assert_eq!(text("25!"), "15511210043330985984000000");
    assert!(eval("254!").is_ok());
    assert_eq!(eval("255!"), Err(CalcError::TooDeep));
}

#[test]
fn variable_persists_across_calls() {
    let mut variables = Variables::new();
    let mut functions = Functions::new();
    assert_eq!(
        parse_and_calc("x=5", &mut variables, &mut functions),
        Ok(Number::from_i64(0))
    );
    assert_eq!(variables.get("x"), Some(Number::from_i64(5)));
    assert_eq!(
        parse_and_calc("x+1", &mut variables, &mut functions),
        Ok(Number::from_i64(6))
    );
    assert_eq!(
        parse_and_calc("y", &mut variables, &mut functions),
        Err(CalcError::UnknownVariable("y".to_string()))
    );
}

#[test]
fn function_is_stored_then_called_and_can_be_redefined() {
    let mut variables = Variables::new();
    let mut functions = Functions::new();
    assert_eq!(
        parse_and_calc("f=($1+$2)", &mut variables, &mut functions),
        Ok(Number::from_i64(0))
    );
    assert_eq!(
        functions.get("f"),
        Some(vec![
            Token::VarGet("$1".to_string()),
            Token::Add,
            Token::VarGet("$2".to_string()),
            Token::ParenClose,
        ])
    );
    assert_eq!(
        parse_and_calc("f(2,3)", &mut variables, &mut functions),
        Ok(Number::from_i64(5))
    );
    assert!(!variables.contains("$1"));
    assert!(!variables.contains("$2"));
    assert_eq!(
        parse_and_calc("f=($1*$2)", &mut variables, &mut functions),
        Ok(Number::from_i64(0))
    );
    assert_eq!(
        parse_and_calc("f(2,3)", &mut variables, &mut functions),
        Ok(Number::from_i64(6))
    );
    assert_eq!(
        parse_and_calc("g(1)", &mut variables, &mut functions),
        Err(CalcError::UnknownFunction("g".to_string()))
    );
}

#[test]
fn definition_written_with_named_parameters_is_refused() {
    assert_eq!(
        eval("f(a,b)=a+b"),
        Err(CalcError::ParseError(ParseError::DisallowedVariable(String::new())))
    );
}

#[test]
fn definition_errors() {
    assert_eq!(eval("f=(1,2)"), Err(CalcError::SeparatorInDef));
    assert_eq!(eval("f=(1+2"), Err(CalcError::UnclosedParen));
    assert_eq!(eval("f=(max($1,2))"), Ok(Number::from_i64(0)));
}

#[test]
fn implicit_multiplication() {
    assert_eq!(eval("2(3+4)"), Ok(Number::from_i64(14)));
    let mut variables = Variables::new();
    let mut functions = Functions::new();
    variables.insert("x".to_string(), Number::from_i64(3));
    assert_eq!(
        parse_and_calc("2x", &mut variables, &mut functions),
        Ok(Number::from_i64(6))
    );
}

#[test]
fn shift_by_sixty_four_is_exact() {
    assert_eq!(text("1<<64"), "18446744073709551616");
    assert_eq!(eval("1<<3"), Ok(Number::from_i64(8)));
    assert_eq!(eval("16>>2"), Ok(Number::from_i64(4)));
    assert_eq!(eval("(-5)>>1"), Ok(Number::from_i64(-3)));
    assert_eq!(eval("1.5<<1"), Err(CalcError::NotAWhole));
    assert_eq!(eval("1<<(-1)"), Err(CalcError::NotAPrimitive("usize")));
    assert_eq!(eval("1<<2<<3"), Ok(Number::from_i64(32)));
}

#[test]
fn self_referential_function_is_too_deep() {
    let mut variables = Variables::new();
    let mut functions = Functions::new();
    assert_eq!(
        parse_and_calc("f=(f($1))", &mut variables, &mut functions),
        Ok(Number::from_i64(0))
    );
    assert_eq!(
        parse_and_calc("f(1)", &mut variables, &mut functions),
        Err(CalcError::TooDeep)
    );
    assert!(!variables.contains("$1"));
}

#[test]
fn bitwise_operations() {
    assert_eq!(eval("6^3"), Ok(Number::from_i64(5)));
    assert_eq!(eval("6|3"), Ok(Number::from_i64(7)));
    assert_eq!(eval("6&3"), Ok(Number::from_i64(2)));
    assert_eq!(eval("~0"), Ok(Number::from_i64(-1)));
    assert_eq!(eval("~5"), Ok(Number::from_i64(-6)));
    assert_eq!(eval("1^2^3"), Ok(Number::from_i64(0)));
    assert_eq!(
        eval("9223372036854775808^1"),
        Err(CalcError::NotAPrimitive("i64"))
    );
    assert_eq!(eval("9223372036854775807&1"), Ok(Number::from_i64(1)));
    assert_eq!(eval("1.5^1"), Err(CalcError::NotAPrimitive("i64")));
    assert_eq!(eval("1|0.5"), Err(CalcError::NotAPrimitive("i64")));
    assert_eq!(eval("2.5&3"), Err(CalcError::NotAPrimitive("i64")));
    assert_eq!(eval("3.0&1"), Ok(Number::from_i64(1)));
    assert_eq!(eval("~1.5"), Ok(Number::from_i64(-2)));
    assert_eq!(eval("~~7"), Ok(Number::from_i64(7)));
}

#[test]
fn precedence_and_grouping() {
    assert_eq!(eval("2+3*4"), Ok(Number::from_i64(14)));
    assert_eq!(eval("(2+3)*4"), Ok(Number::from_i64(20)));
    assert_eq!(eval("10-4-3"), Ok(Number::from_i64(3)));
    assert_eq!(eval("2*3**2"), Ok(Number::from_i64(18)));
    assert_eq!(eval("1+2<<3"), Ok(Number::from_i64(24)));
    assert_eq!(eval("1|2&3"), Ok(Number::from_i64(3)));
    assert_eq!(eval("-3+5"), Ok(Number::from_i64(2)));
    assert_eq!(eval("abs(-3)"), Ok(Number::from_i64(3)));
    assert_eq!(eval("abs(1,2)"), Err(CalcError::IncorrectArguments(1, 2)));
    assert_eq!(eval("3!+1"), Ok(Number::from_i64(7)));
}

#[test]
fn syntax_errors() {
    assert_eq!(
        eval("(1)2"),
        Err(CalcError::ExpectedEOF(Token::Num(Number::from_i64(2))))
    );
    assert_eq!(eval("1 2"), Ok(Number::from_i64(12)));
    assert_eq!(eval("(1"), Err(CalcError::UnclosedParen));
    assert_eq!(eval("()"), Err(CalcError::IncorrectArguments(1, 0)));
    assert_eq!(eval("(1,2)"), Err(CalcError::IncorrectArguments(1, 2)));
    assert_eq!(eval(""), Err(CalcError::InvalidSyntax));
    assert_eq!(eval("1+"), Err(CalcError::InvalidSyntax));
    assert_eq!(eval("1)"), Err(CalcError::ExpectedEOF(Token::ParenClose)));
    assert_eq!(
        eval("1#"),
        Err(CalcError::ParseError(ParseError::DisallowedChar('#')))
    );
}

#[test]
fn assignment_evaluates_to_zero_and_keeps_earlier_changes() {
    let mut variables = Variables::new();
    let mut functions = Functions::new();
    assert_eq!(
        parse_and_calc("(a=2)+(b=a+1)+c", &mut variables, &mut functions),
        Err(CalcError::UnknownVariable("c".to_string()))
    );
    assert_eq!(variables.get("a"), Some(Number::from_i64(2)));
    assert_eq!(variables.get("b"), Some(Number::from_i64(3)));
}

#[test]
fn numbers_out_of_range_are_too_large() {
    let mut variables = Variables::new();
    let mut functions = Functions::new();
    variables.insert("tiny".to_string(), Number::from_parts(vec![1], 4294967297));
    assert_eq!(
        parse_and_calc("tiny+1", &mut variables, &mut functions),
        Err(CalcError::TooLarge)
    );
    assert_eq!(
        parse_and_calc("tiny*2", &mut variables, &mut functions),
        Err(CalcError::TooLarge)
    );
}

#[test]
fn functions_call_functions() {
    let mut variables = Variables::new();
    let mut functions = Functions::new();
    for definition in ["double=($1*2)", "f=($1+double($1))", "g=(double($1)+$1)"] {
        assert_eq!(
            parse_and_calc(definition, &mut variables, &mut functions),
            Ok(Number::from_i64(0))
        );
    }
    assert_eq!(
        parse_and_calc("double(21)", &mut variables, &mut functions),
        Ok(Number::from_i64(42))
    );
    assert_eq!(
        parse_and_calc("f(3)", &mut variables, &mut functions),
        Ok(Number::from_i64(9))
    );
    assert_eq!(
        parse_and_calc("g(3)", &mut variables, &mut functions),
        Err(CalcError::UnknownVariable("$1".to_string()))
    );
    assert_eq!(
        parse_and_calc("double(1+2, 5)", &mut variables, &mut functions),
        Ok(Number::from_i64(6))
    );
    assert_eq!(
        parse_and_calc("double()", &mut variables, &mut functions),
        Err(CalcError::UnknownVariable("$1".to_string()))
    );
    assert!(!variables.contains("$1"));
    assert!(!variables.contains("$2"));
}

#[test]
fn many_arguments_get_their_positional_names() {
    let mut variables = Variables::new();
    let mut functions = Functions::new();
    assert_eq!(
        parse_and_calc("last=($12-$1)", &mut variables, &mut functions),
        Ok(Number::from_i64(0))
    );
    assert_eq!(
        parse_and_calc(
            "last(1,2,3,4,5,6,7,8,9,10,11,40)",
            &mut variables,
            &mut functions
        ),
        Ok(Number::from_i64(39))
    );
    assert!(!variables.contains("$12"));
    assert!(!variables.contains("$10"));
}

#[test]
fn assignment_inside_a_function_body_persists() {
    let mut variables = Variables::new();
    let mut functions = Functions::new();
    assert_eq!(
        parse_and_calc("keep=(kept=$1)", &mut variables, &mut functions),
        Ok(Number::from_i64(0))
    );
    assert_eq!(
        parse_and_calc("keep(7)", &mut variables, &mut functions),
        Ok(Number::from_i64(0))
    );
    assert_eq!(variables.get("kept"), Some(Number::from_i64(7)));
}

#[test]
fn negation_binds_tighter_than_a_sum() {
    assert_eq!(eval("-3+5"), Ok(Number::from_i64(2)));
    assert_eq!(eval("--3"), Ok(Number::from_i64(3)));
    assert_eq!(eval("2*-3"), Ok(Number::from_i64(-6)));
    assert_eq!(eval("-(1+2)"), Ok(Number::from_i64(-3)));
    assert_eq!(eval("-abs(-2)"), Ok(Number::from_i64(-2)));
}
