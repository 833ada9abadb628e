use simple_math_lib::calculator::{
    calc_level2, calc_level3, calc_level4, calc_level5, calculate, factorial, pow, CalcError,
    Context,
};
use simple_math_lib::environment::{Functions, Variables};
use simple_math_lib::number::Number;
use simple_math_lib::parser::parse;
use simple_math_lib::token::{duplicate_tokens, Token};

#[test]
fn variables_map() {
    let mut variables = Variables::new();
    assert_eq!(variables.get("x"), None);
    assert!(!variables.contains("x"));
    variables.insert("x".to_string(), Number::from_i64(1));
    variables.insert("y".to_string(), Number::from_i64(2));
    variables.insert("x".to_string(), Number::from_i64(3));
    assert_eq!(variables.get("x"), Some(Number::from_i64(3)));
    assert_eq!(variables.get("y"), Some(Number::from_i64(2)));
    variables.remove("x");
    assert_eq!(variables.get("x"), None);
    assert!(variables.contains("y"));
    variables.remove("never");
    assert!(variables.contains("y"));
}

#[test]
fn functions_map() {
    let mut functions = Functions::new();
    assert_eq!(functions.get("f"), None);
    functions.insert("f".to_string(), vec![Token::Add]);
    functions.insert("f".to_string(), vec![Token::Sub, Token::ParenClose]);
    assert_eq!(functions.get("f"), Some(vec![Token::Sub, Token::ParenClose]));
    assert!(functions.contains("f"));
    functions.remove("f");
    assert!(!functions.contains("f"));
}

#[test]
fn tokens_are_copied_one_for_one() {
    let tokens = parse("f(2x,-1.5)**3!").unwrap();
    assert_eq!(duplicate_tokens(&tokens), tokens);
    for token in &tokens {
        assert_eq!(&token.duplicate(), token);
    }
}

#[test]
fn context_evaluates_tokens_and_gives_the_maps_back() {
    let mut variables = Variables::new();
    variables.insert("x".to_string(), Number::from_i64(4));
    let tokens = parse("y=x*2").unwrap();
    let mut context = Context::new(tokens, variables, Functions::new());
    assert_eq!(calculate(&mut context), Ok(Number::from_i64(0)));
    let (variables, functions) = context.into_maps();
    assert_eq!(variables.get("y"), Some(Number::from_i64(8)));
    assert_eq!(variables.get("x"), Some(Number::from_i64(4)));
    assert!(!functions.contains("y"));
}

#[test]
fn nested_groups_up_to_the_ceiling() {
    let deep = format!("{}1{}", "(".repeat(254), ")".repeat(254));
    let mut context = Context::new(parse(&deep).unwrap(), Variables::new(), Functions::new());
    assert_eq!(calculate(&mut context), Ok(Number::from_i64(1)));
    let deeper = format!("{}1{}", "(".repeat(255), ")".repeat(255));
    let mut context = Context::new(parse(&deeper).unwrap(), Variables::new(), Functions::new());
    assert_eq!(calculate(&mut context), Err(CalcError::TooDeep));
}

#[test]
fn factorial_with_accumulator_and_count() {
    assert_eq!(
        factorial(Number::from_i64(5), None, 0),
        Ok(Number::from_i64(120))
    );
    assert_eq!(
        factorial(Number::from_i64(3), Some(Number::from_i64(10)), 0),
        Ok(Number::from_i64(60))
    );
    assert_eq!(
        factorial(Number::from_i64(0), Some(Number::from_i64(7)), 254),
        Ok(Number::from_i64(7))
    );
    assert_eq!(
        factorial(Number::from_i64(1), None, 254),
        Err(CalcError::TooDeep)
    );
    assert_eq!(
        factorial(Number::from_i64(0), None, 255),
        Err(CalcError::TooDeep)
    );
    assert_eq!(
        factorial(Number::from_decimal_text("0.5").unwrap(), None, 0),
        Err(CalcError::NotAWhole)
    );
    assert_eq!(
        factorial(Number::from_i64(-2), None, 0),
        Err(CalcError::NotAPositive)
    );
}

#[test]
fn power_with_accumulator_and_count() {
    assert_eq!(
        pow(Number::from_i64(2), Number::from_i64(10), None, 0),
        Ok(Number::from_i64(1024))
    );
    assert_eq!(
        pow(Number::from_i64(3), Number::from_i64(2), Some(Number::from_i64(5)), 0),
        Ok(Number::from_i64(45))
    );
    assert_eq!(
        pow(Number::from_i64(3), Number::from_i64(0), Some(Number::from_i64(5)), 0),
        Ok(Number::from_i64(5))
    );
    assert_eq!(
        pow(Number::from_i64(2), Number::from_i64(1), None, 254),
        Ok(Number::from_i64(2))
    );
    assert_eq!(
        pow(Number::from_i64(2), Number::from_i64(2), None, 254),
        Err(CalcError::TooDeep)
    );
    assert_eq!(
        pow(Number::from_i64(2), Number::from_i64(2), None, 255),
        Err(CalcError::TooDeep)
    );
    assert_eq!(
        pow(Number::from_i64(-2), Number::from_i64(2), None, 0),
        Err(CalcError::NotAPositive)
    );
    assert_eq!(
        pow(Number::from_i64(0), Number::from_i64(5), None, 0),
        Ok(Number::from_i64(0))
    );
    assert!(pow(Number::from_i64(4), Number::from_i64(-2), None, 0)
        .unwrap()
        .same_value(&Number::from_decimal_text("0.0625").unwrap()));
}

fn context(input: &str) -> Context {
    Context::new(parse(input).unwrap(), Variables::new(), Functions::new())
}

#[test]
fn each_level_stops_at_the_operator_of_a_looser_level() {
    let mut whole = context("1|2^4");
    assert_eq!(calc_level2(&mut whole), Ok(Number::from_i64(3)));
    assert_eq!(calc_level2(&mut whole), Err(CalcError::InvalidSyntax));
    let mut and = context("6&3|8");
    assert_eq!(calc_level3(&mut and), Ok(Number::from_i64(2)));
    let mut shift = context("1<<4&1");
    assert_eq!(calc_level4(&mut shift), Ok(Number::from_i64(16)));
    let mut sum = context("1+2*3-4<<1");
    assert_eq!(calc_level5(&mut sum), Ok(Number::from_i64(3)));
    assert_eq!(calc_level4(&mut sum), Err(CalcError::InvalidSyntax));
}

#[test]
fn levels_do_not_check_what_follows() {
    let mut trailing = context("1+2)");
    assert_eq!(calc_level5(&mut trailing), Ok(Number::from_i64(3)));
    let mut checked = context("1+2)");
    assert_eq!(
        calculate(&mut checked),
        Err(CalcError::ExpectedEOF(Token::ParenClose))
    );
}
