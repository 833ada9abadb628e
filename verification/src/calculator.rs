//! The evaluator: a recursive descent over the tokens that computes as it reads.

use crate::environment::{Functions, Variables};
use crate::number::{opt_view, Decimal, Number};
use crate::parser::{parse_fault_text, ParseError};
use crate::semantics::{
    and_of, arg_name, bind_args, definition_end, difference_of, digit_char, eval_args,
    eval_calculate, eval_call, eval_group, eval_level2, eval_level3, eval_level4,
    eval_level4_rest, eval_level5, eval_level5_rest, eval_level6, eval_level6_rest, eval_level7,
    eval_level8, eval_level9, eval_number, eval_paren, exact_i64, factorial_from, factorial_of,
    finish, index_text, not_of, or_of, positive_fault, pow_of, power_from, product_of, ratio_of,
    remainder_of, shl_of, shr_of, sum_of, unbind_args, whole_fault, xor_of, ArgsOutcome, Fault,
    MAX_LEVEL, Machine, Outcome,
};
use crate::token::{quoted, quoted_text, syms, token_text, Token};
use vstd::arithmetic::power::lemma_pow0;
use vstd::arithmetic::power2::lemma2_to64;
use vstd::prelude::*;
use vstd::string::StringExecFns;

verus! {

/// An error when calculating
#[derive(Clone, Debug, PartialEq, Eq)]
pub enum CalcError {
    DivideByZero,
    ExpectedEOF(Token),
    IncorrectArguments(usize, usize),
    InvalidSyntax,
    NotAPositive,
    NotAPrimitive(&'static str),
    NotAWhole,
    ParseError(ParseError),
    SeparatorInDef,
    TooDeep,
    TooLarge,
    UnclosedParen,
    UnknownFunction(String),
    UnknownVariable(String),
}

impl View for CalcError {
    type V = Fault;

    open spec fn view(&self) -> Fault {
        match self {
            CalcError::DivideByZero => Fault::DivideByZero,
            CalcError::ExpectedEOF(token) => Fault::ExpectedEOF(token@),
            CalcError::IncorrectArguments(expected, got) => Fault::IncorrectArguments(
                *expected as nat,
                *got as nat,
            ),
            CalcError::InvalidSyntax => Fault::InvalidSyntax,
            CalcError::NotAPositive => Fault::NotAPositive,
            CalcError::NotAPrimitive(name) => Fault::NotAPrimitive(name@),
            CalcError::NotAWhole => Fault::NotAWhole,
            CalcError::ParseError(e) => Fault::ParseError(e@),
            CalcError::SeparatorInDef => Fault::SeparatorInDef,
            CalcError::TooDeep => Fault::TooDeep,
            CalcError::TooLarge => Fault::TooLarge,
            CalcError::UnclosedParen => Fault::UnclosedParen,
            CalcError::UnknownFunction(name) => Fault::UnknownFunction(name@),
            CalcError::UnknownVariable(name) => Fault::UnknownVariable(name@),
        }
    }
}

/// The message of an evaluation error.
pub open spec fn fault_text(f: Fault) -> Seq<char> {
    match f {
        Fault::DivideByZero => "Cannot divide by zero"@,
        Fault::ExpectedEOF(t) => "Expected EOF, found "@ + token_text(t),
        Fault::IncorrectArguments(expected, got) => "Incorrect amount of arguments (Expected "@
            + index_text(expected) + ", got "@ + index_text(got) + ")"@,
        Fault::InvalidSyntax => "Invalid syntax"@,
        Fault::NotAPositive => "You may only do this on positive numbers"@,
        Fault::NotAPrimitive(name) => "Number must fit the range of a "@ + name + " primitive"@,
        Fault::NotAWhole => "You may only do this on whole numbers"@,
        Fault::ParseError(e) => "Parse error: "@ + parse_fault_text(e),
        Fault::SeparatorInDef => "A function definition cannot have multiple arguments"@,
        Fault::TooDeep =>
            "Too many levels deep. This could be an issue with endless recursion."@,
        Fault::TooLarge => "You can only do this operation on smaller numbers"@,
        Fault::UnclosedParen => "Unclosed parentheses"@,
        Fault::UnknownFunction(name) => quoted_text("Unknown function "@, name)
            + "\nHint: Cannot assume multiplication of variables because of ambiguity"@,
        Fault::UnknownVariable(name) => quoted_text("Unknown variable "@, name),
    }
}

/// What kind of evaluation error it is, in a few words.
pub open spec fn fault_description(f: Fault) -> Seq<char> {
    match f {
        Fault::DivideByZero => "Cannot divide by zero"@,
        Fault::ExpectedEOF(_) => "Expected EOF"@,
        Fault::IncorrectArguments(_, _) => "Incorrect amount of arguments!"@,
        Fault::InvalidSyntax => "Invalid syntax"@,
        Fault::NotAPositive => "You may only do this on positive numbers"@,
        Fault::NotAPrimitive(_) => "Number must fit the range of a primitive"@,
        Fault::NotAWhole => "You may only do this on whole numbers"@,
        Fault::ParseError(_) => "Parse error"@,
        Fault::SeparatorInDef => "A function definition cannot have multiple arguments"@,
        Fault::TooDeep => "Too many levels deep"@,
        Fault::TooLarge => "You can only do this operation on smaller numbers"@,
        Fault::UnclosedParen => "Unclosed parentheses"@,
        Fault::UnknownFunction(_) => "Unknown function"@,
        Fault::UnknownVariable(_) => "Unknown variable"@,
    }
}

impl CalcError {
    /// The message of this error.
    pub fn to_text(&self) -> (r: String)
        ensures
            r@ == fault_text(self@),
    {
        match self {
            CalcError::DivideByZero => "Cannot divide by zero".to_owned(),
            CalcError::ExpectedEOF(token) => {
                let mut r = "Expected EOF, found ".to_owned();
                r.append(token.to_text().as_str());
                r
            },
            CalcError::IncorrectArguments(expected, got) => {
                let mut r = "Incorrect amount of arguments (Expected ".to_owned();
                push_index(&mut r, *expected);
                r.append(", got ");
                push_index(&mut r, *got);
                r.append(")");
                r
            },
            CalcError::InvalidSyntax => "Invalid syntax".to_owned(),
            CalcError::NotAPositive => "You may only do this on positive numbers".to_owned(),
            CalcError::NotAPrimitive(name) => {
                let mut r = "Number must fit the range of a ".to_owned();
                r.append(name);
                r.append(" primitive");
                r
            },
            CalcError::NotAWhole => "You may only do this on whole numbers".to_owned(),
            CalcError::ParseError(e) => {
                let mut r = "Parse error: ".to_owned();
                r.append(e.to_text().as_str());
                r
            },
            CalcError::SeparatorInDef =>
                "A function definition cannot have multiple arguments".to_owned(),
            CalcError::TooDeep =>
                "Too many levels deep. This could be an issue with endless recursion.".to_owned(),
            CalcError::TooLarge => "You can only do this operation on smaller numbers".to_owned(),
            CalcError::UnclosedParen => "Unclosed parentheses".to_owned(),
            CalcError::UnknownFunction(name) => {
                let mut r = quoted("Unknown function ", name.as_str());
                r.append("\nHint: Cannot assume multiplication of variables because of ambiguity");
                r
            },
            CalcError::UnknownVariable(name) => quoted("Unknown variable ", name.as_str()),
        }
    }

    /// What kind of error it is, in a few words.
    pub fn description(&self) -> (r: &'static str)
        ensures
            r@ == fault_description(self@),
    {
        match self {
            CalcError::DivideByZero => "Cannot divide by zero",
            CalcError::ExpectedEOF(_) => "Expected EOF",
            CalcError::IncorrectArguments(_, _) => "Incorrect amount of arguments!",
            CalcError::InvalidSyntax => "Invalid syntax",
            CalcError::NotAPositive => "You may only do this on positive numbers",
            CalcError::NotAPrimitive(_) => "Number must fit the range of a primitive",
            CalcError::NotAWhole => "You may only do this on whole numbers",
            CalcError::ParseError(_) => "Parse error",
            CalcError::SeparatorInDef => "A function definition cannot have multiple arguments",
            CalcError::TooDeep => "Too many levels deep",
            CalcError::TooLarge => "You can only do this operation on smaller numbers",
            CalcError::UnclosedParen => "Unclosed parentheses",
            CalcError::UnknownFunction(_) => "Unknown function",
            CalcError::UnknownVariable(_) => "Unknown variable",
        }
    }
}

/// The contents of what a computation returned.
pub open spec fn result_view(r: Result<Number, CalcError>) -> Result<Decimal, Fault> {
    match r {
        Ok(n) => Ok(n@),
        Err(e) => Err(e@),
    }
}

/// The contents of a sequence of numbers.
pub open spec fn decimals(numbers: Seq<Number>) -> Seq<Decimal> {
    numbers.map_values(|n: Number| n@)
}

/// A Context for `calculate` to pass around to all its sub-functions
pub struct Context {
    level: u8,
    cursor: usize,
    /// The tokens gotten by the parser
    pub tokens: Vec<Token>,
    /// The map of variables
    pub variables: Variables,
    /// The map of functions
    pub functions: Functions,
}

impl View for Context {
    type V = Machine;

    closed spec fn view(&self) -> Machine {
        Machine {
            tokens: syms(self.tokens@),
            pos: self.cursor as nat,
            level: self.level as nat,
            vars: self.variables@,
            funs: self.functions@,
        }
    }
}

/// Whether what an evaluation returned and left behind is what `o` says: the maps in every
/// case, with tokens and level untouched, and on success also the value and the cursor.
pub open spec fn agrees(
    o: Outcome,
    before: Machine,
    r: Result<Number, CalcError>,
    after: Machine,
) -> bool {
    &&& after.vars == o.vars
    &&& after.funs == o.funs
    &&& after.tokens == before.tokens
    &&& after.level == before.level
    &&& match r {
        Ok(n) => o.result == Ok::<Decimal, Fault>(n@) && after.pos == before.pos + o.used,
        Err(e) => o.result == Err::<Decimal, Fault>(e@),
    }
}

impl Context {
    /// A context at the start of `tokens`, at the top level.
    pub fn new(tokens: Vec<Token>, variables: Variables, functions: Functions) -> (r: Context)
        ensures
            r@ == (Machine {
                tokens: syms(tokens@),
                pos: 0,
                level: 0,
                vars: variables@,
                funs: functions@,
            }),
    {
        Context { level: 0, cursor: 0, tokens, variables, functions }
    }

    /// Gives the two maps back.
    pub fn into_maps(self) -> (r: (Variables, Functions))
        ensures
            r.0@ == self@.vars,
            r.1@ == self@.funs,
    {
        (self.variables, self.functions)
    }

    fn peek(&self) -> (r: Option<&Token>)
        ensures
            match r {
                Some(t) => self@.peek() == Some(t@),
                None => self@.peek() is None,
            },
    {
        if self.cursor < self.tokens.len() {
            Some(&self.tokens[self.cursor])
        } else {
            None
        }
    }

    fn advance(&mut self)
        requires
            old(self)@.peek() is Some,
        ensures
            final(self)@ == old(self)@.skip(1),
    {
        if self.cursor < self.tokens.len() {
            self.cursor += 1;
        }
    }
}

fn to_primitive(n: &Number) -> (r: Result<i64, CalcError>)
    ensures
        match r {
            Ok(v) => n@.to_i64() == Some(v),
            Err(e) => n@.to_i64() is None && e@ == Fault::NotAPrimitive("i64"@),
        },
{
    match n.to_i64() {
        Some(v) => Ok(v),
        None => Err(CalcError::NotAPrimitive("i64")),
    }
}

fn to_exact_primitive(n: &Number) -> (r: Result<i64, CalcError>)
    ensures
        match r {
            Ok(v) => exact_i64(n@) == Some(v),
            Err(e) => exact_i64(n@) is None && e@ == Fault::NotAPrimitive("i64"@),
        },
{
    match n.is_whole() {
        Some(whole) => if whole {
            to_primitive(n)
        } else {
            Err(CalcError::NotAPrimitive("i64"))
        },
        None => Err(CalcError::NotAPrimitive("i64")),
    }
}

fn to_distance(n: &Number) -> (r: Result<usize, CalcError>)
    ensures
        match r {
            Ok(v) => n@.to_usize() == Some(v),
            Err(e) => n@.to_usize() is None && e@ == Fault::NotAPrimitive("usize"@),
        },
{
    match n.to_usize() {
        Some(v) => Ok(v),
        None => Err(CalcError::NotAPrimitive("usize")),
    }
}

fn xor(a: &Number, b: &Number) -> (r: Result<Number, CalcError>)
    ensures
        result_view(r) == xor_of(a@, b@),
{
    reveal(xor_of);
    let x = to_exact_primitive(a)?;
    let y = to_exact_primitive(b)?;
    Ok(Number::from_i64(x ^ y))
}

fn or(a: &Number, b: &Number) -> (r: Result<Number, CalcError>)
    ensures
        result_view(r) == or_of(a@, b@),
{
    reveal(or_of);
    let x = to_exact_primitive(a)?;
    let y = to_exact_primitive(b)?;
    Ok(Number::from_i64(x | y))
}

fn and(a: &Number, b: &Number) -> (r: Result<Number, CalcError>)
    ensures
        result_view(r) == and_of(a@, b@),
{
    reveal(and_of);
    let x = to_exact_primitive(a)?;
    let y = to_exact_primitive(b)?;
    Ok(Number::from_i64(x & y))
}

fn not(a: &Number) -> (r: Result<Number, CalcError>)
    ensures
        result_view(r) == not_of(a@),
{
    reveal(not_of);
    let x = to_primitive(a)?;
    Ok(Number::from_i64(!x))
}

fn require_whole(num: &Number) -> (r: Result<(), CalcError>)
    ensures
        match r {
            Ok(_) => whole_fault(num@) is None,
            Err(e) => whole_fault(num@) == Some(e@),
        },
{
    reveal(whole_fault);
    match num.is_whole() {
        None => Err(CalcError::TooLarge),
        Some(whole) => if whole {
            Ok(())
        } else {
            Err(CalcError::NotAWhole)
        },
    }
}

fn require_positive(num: &Number) -> (r: Result<(), CalcError>)
    ensures
        match r {
            Ok(_) => positive_fault(num@) is None,
            Err(e) => positive_fault(num@) == Some(e@),
        },
{
    reveal(positive_fault);
    if num.is_negative() {
        Err(CalcError::NotAPositive)
    } else {
        Ok(())
    }
}

fn shift_left(a: &Number, b: &Number) -> (r: Result<Number, CalcError>)
    ensures
        result_view(r) == shl_of(a@, b@),
{
    reveal(shl_of);
    reveal(whole_fault);
    let distance = to_distance(b)?;
    require_whole(a)?;
    match a.shifted_left(distance) {
        Some(v) => Ok(v),
        None => Err(CalcError::TooLarge),
    }
}

fn shift_right(a: &Number, b: &Number) -> (r: Result<Number, CalcError>)
    ensures
        result_view(r) == shr_of(a@, b@),
{
    reveal(shr_of);
    reveal(whole_fault);
    let distance = to_distance(b)?;
    require_whole(a)?;
    match a.shifted_right(distance) {
        Some(v) => Ok(v),
        None => Err(CalcError::TooLarge),
    }
}

fn sum(a: &Number, b: &Number) -> (r: Result<Number, CalcError>)
    ensures
        result_view(r) == sum_of(a@, b@),
{
    reveal(sum_of);
    match a.plus(b) {
        Some(v) => Ok(v),
        None => Err(CalcError::TooLarge),
    }
}

fn difference(a: &Number, b: &Number) -> (r: Result<Number, CalcError>)
    ensures
        result_view(r) == difference_of(a@, b@),
{
    reveal(difference_of);
    match a.minus(b) {
        Some(v) => Ok(v),
        None => Err(CalcError::TooLarge),
    }
}

fn product(a: &Number, b: &Number) -> (r: Result<Number, CalcError>)
    ensures
        result_view(r) == product_of(a@, b@),
{
    reveal(product_of);
    match a.times(b) {
        Some(v) => Ok(v),
        None => Err(CalcError::TooLarge),
    }
}

fn ratio(a: &Number, b: &Number) -> (r: Result<Number, CalcError>)
    ensures
        result_view(r) == ratio_of(a@, b@),
{
    reveal(ratio_of);
    if b.is_zero() {
        return Err(CalcError::DivideByZero);
    }
    match a.over(b) {
        Some(v) => Ok(v),
        None => Err(CalcError::TooLarge),
    }
}

fn remainder(a: &Number, b: &Number) -> (r: Result<Number, CalcError>)
    ensures
        result_view(r) == remainder_of(a@, b@),
{
    reveal(remainder_of);
    if b.is_zero() {
        return Err(CalcError::DivideByZero);
    }
    if !a.in_range() || !b.in_range() {
        return Err(CalcError::TooLarge);
    }
    match a.remainder(b) {
        Some(v) => Ok(v),
        None => Err(CalcError::DivideByZero),
    }
}

/// Calculates the factorial of `num`
#[verifier::spinoff_prover]
pub fn factorial(num: Number, acc: Option<Number>, times: u8) -> (r: Result<Number, CalcError>)
    ensures
        result_view(r) == factorial_of(num@, opt_view(acc), times as nat),
{
    reveal(factorial_of);
    let ghost goal = factorial_of(num@, opt_view(acc), times as nat);
    if times == MAX_LEVEL {
        return Err(CalcError::TooDeep);
    }
    require_whole(&num)?;
    require_positive(&num)?;
    let one = Number::from_i64(1);
    let mut result = match acc {
        Some(a) => a,
        None => Number::from_i64(1),
    };
    let mut n = num;
    let mut count = times;
    let mut outcome: Result<Number, CalcError> = Err(CalcError::TooDeep);
    loop
        invariant_except_break
            one@ == Decimal::integer(1),
            factorial_from(n@, result@, count as nat) == goal,
        ensures
            result_view(outcome) == goal,
        decreases MAX_LEVEL - count,
    {
        reveal(product_of);
        reveal(difference_of);
        if count == MAX_LEVEL {
            outcome = Err(CalcError::TooDeep);
            break;
        }
        if n.is_zero() {
            outcome = Ok(result);
            break;
        }
        match product(&result, &n) {
            Ok(p) => {
                result = p;
            },
            Err(e) => {
                outcome = Err(e);
                break;
            },
        }
        match difference(&n, &one) {
            Ok(d) => {
                n = d;
            },
            Err(e) => {
                outcome = Err(e);
                break;
            },
        }
        count += 1;
    }
    outcome
}

/// Calculates `num` to the power of `power`
#[verifier::spinoff_prover]
pub fn pow(num: Number, power: Number, acc: Option<Number>, times: u8) -> (r: Result<
    Number,
    CalcError,
>)
    ensures
        result_view(r) == pow_of(num@, power@, opt_view(acc), times as nat),
{
    reveal(pow_of);
    let ghost goal = pow_of(num@, power@, opt_view(acc), times as nat);
    if times == MAX_LEVEL {
        return Err(CalcError::TooDeep);
    }
    require_positive(&num)?;
    require_whole(&power)?;
    let mut result = match acc {
        Some(a) => a,
        None => Number::from_i64(1),
    };
    if power.is_zero() {
        return Ok(result);
    }
    let mut count = times;
    let mut base = num;
    if power.is_negative() {
        if base.is_zero() {
            return Err(CalcError::DivideByZero);
        }
        base = match Number::from_i64(1).over(&base) {
            Some(inverse) => inverse,
            None => {
                return Err(CalcError::TooLarge);
            },
        };
        count += 1;
    }
    let two = Number::from_i64(2);
    proof {
        reveal(whole_fault);
    }
    let mut exponent = match power.magnitude().truncated() {
        Some(e) => e,
        None => {
            return Err(CalcError::TooLarge);
        },
    };
    let ghost mut exp: int = power@.magnitude().whole_part();
    let mut outcome: Result<Number, CalcError> = Err(CalcError::TooDeep);
    loop
        invariant_except_break
            two@ == Decimal::integer(2),
            exponent@ == Decimal::integer(exp),
            power_from(base@, exp, result@, count as nat) == goal,
        ensures
            result_view(outcome) == goal,
        decreases MAX_LEVEL - count,
    {
        reveal(product_of);
        proof {
            lemma_pow0(10);
            lemma2_to64();
        }
        if exponent.is_zero() {
            outcome = Ok(result);
            break;
        }
        if count == MAX_LEVEL {
            outcome = Err(CalcError::TooDeep);
            break;
        }
        assert(exponent@.whole_part() == exp);
        assert(two@.whole_part() == 2);
        let even = match exponent.remainder(&two) {
            Some(rest) => rest.is_zero(),
            None => true,
        };
        if !even {
            match product(&result, &base) {
                Ok(p) => {
                    result = p;
                },
                Err(e) => {
                    outcome = Err(e);
                    break;
                },
            }
        }
        let half = exponent.shifted_right(1);
        exponent = match half {
            Some(h) => h,
            None => exponent,
        };
        proof {
            exp = exp / 2;
        }
        if exponent.is_zero() {
            outcome = Ok(result);
            break;
        }
        match product(&base, &base) {
            Ok(square) => {
                base = square;
            },
            Err(e) => {
                outcome = Err(e);
                break;
            },
        }
        count += 1;
    }
    outcome
}

/// Calculates the result in a recursive descent fashion
#[verifier::spinoff_prover]
pub fn calculate(context: &mut Context) -> (r: Result<Number, CalcError>)
    ensures
        agrees(eval_calculate(old(context)@), old(context)@, r, final(context)@),
    decreases old(context)@.depth_left(), old(context)@.remaining(), 30nat,
{
    reveal(eval_calculate);
    reveal(eval_level2);
    if context.level == MAX_LEVEL {
        return Err(CalcError::TooDeep);
    }
    let expr1 = calc_level2(context)?;
    if matches!(context.peek(), Some(Token::Xor)) {
        context.advance();
        let ghost m1 = context@;
        assert(m1.depth_left() == old(context)@.depth_left());
        assert(m1.remaining() < old(context)@.remaining());
        let expr2 = calculate(context)?;
        let ghost left = expr1@;
        let ghost right = expr2@;
        let r = xor(&expr1, &expr2);
        assert(result_view(r) == xor_of(left, right));
        assert(eval_calculate(old(context)@) == finish(
            old(context)@,
            m1.after(eval_calculate(m1)),
            xor_of(left, right),
        ));
        return r;
    }
    match context.peek() {
        None => Ok(expr1),
        Some(token) => {
            if context.level != 0 && (matches!(token, Token::ParenClose) || matches!(
                token,
                Token::Separator
            )) {
                Ok(expr1)
            } else {
                Err(CalcError::ExpectedEOF(token.duplicate()))
            }
        },
    }
}

/// `|`, which groups to the right.
#[verifier::spinoff_prover]
pub fn calc_level2(context: &mut Context) -> (r: Result<Number, CalcError>)
    ensures
        agrees(eval_level2(old(context)@), old(context)@, r, final(context)@),
    decreases old(context)@.depth_left(), old(context)@.remaining(), 28nat,
{
    reveal(eval_level2);
    reveal(eval_level3);
    let expr1 = calc_level3(context)?;
    if matches!(context.peek(), Some(Token::Or)) {
        context.advance();
        let ghost m1 = context@;
        assert(m1.depth_left() == old(context)@.depth_left());
        assert(m1.remaining() < old(context)@.remaining());
        let expr2 = calc_level2(context)?;
        let ghost left = expr1@;
        let ghost right = expr2@;
        let r = or(&expr1, &expr2);
        assert(result_view(r) == or_of(left, right));
        assert(eval_level2(old(context)@) == finish(
            old(context)@,
            m1.after(eval_level2(m1)),
            or_of(left, right),
        ));
        return r;
    }
    Ok(expr1)
}

/// `&`, which groups to the right.
#[verifier::spinoff_prover]
pub fn calc_level3(context: &mut Context) -> (r: Result<Number, CalcError>)
    ensures
        agrees(eval_level3(old(context)@), old(context)@, r, final(context)@),
    decreases old(context)@.depth_left(), old(context)@.remaining(), 26nat,
{
    reveal(eval_level3);
    reveal(eval_level4);
    let expr1 = calc_level4(context)?;
    if matches!(context.peek(), Some(Token::And)) {
        context.advance();
        let ghost m1 = context@;
        assert(m1.depth_left() == old(context)@.depth_left());
        assert(m1.remaining() < old(context)@.remaining());
        let expr2 = calc_level3(context)?;
        let ghost left = expr1@;
        let ghost right = expr2@;
        let r = and(&expr1, &expr2);
        assert(result_view(r) == and_of(left, right));
        assert(eval_level3(old(context)@) == finish(
            old(context)@,
            m1.after(eval_level3(m1)),
            and_of(left, right),
        ));
        return r;
    }
    Ok(expr1)
}

/// `<<` and `>>`, which group to the left.
#[verifier::spinoff_prover]
pub fn calc_level4(context: &mut Context) -> (r: Result<Number, CalcError>)
    ensures
        agrees(eval_level4(old(context)@), old(context)@, r, final(context)@),
    decreases old(context)@.depth_left(), old(context)@.remaining(), 24nat,
{
    reveal(eval_level4);
    reveal(eval_level5);
    reveal(eval_level4_rest);
    let ghost start = context@;
    let mut expr1 = calc_level5(context)?;
    loop
        invariant
            start == old(context)@,
            context@.tokens == start.tokens,
            context@.level == start.level,
            context@.pos >= start.pos,
            ({
                let t = eval_level4_rest(context@, expr1@);
                finish(start, context@.after(t), t.result) == eval_level4(start)
            }),
        decreases context@.remaining(),
    {
        reveal(eval_level4_rest);
        reveal(eval_level5);
        let ghost cur = context@;
        let ghost acc = expr1@;
        let left = matches!(context.peek(), Some(Token::BitshiftLeft));
        let right = matches!(context.peek(), Some(Token::BitshiftRight));
        if !left && !right {
            return Ok(expr1);
        }
        context.advance();
        assert(context@.depth_left() == start.depth_left());
        assert(context@.remaining() < start.remaining());
        let expr2 = calc_level5(context)?;
        let next = if left {
            shift_left(&expr1, &expr2)?
        } else {
            shift_right(&expr1, &expr2)?
        };
        proof {
            let o = eval_level5(cur.skip(1));
            let m1 = cur.skip(1).after(o);
            assert(context@ == m1);
            let t_old = eval_level4_rest(cur, acc);
            let t_new = eval_level4_rest(m1, next@);
            assert(t_old == finish(cur, m1.after(t_new), t_new.result));
            assert(cur.after(t_old) == m1.after(t_new));
        }
        expr1 = next;
    }
}

/// `+` and `-`, which group to the left.
#[verifier::spinoff_prover]
pub fn calc_level5(context: &mut Context) -> (r: Result<Number, CalcError>)
    ensures
        agrees(eval_level5(old(context)@), old(context)@, r, final(context)@),
    decreases old(context)@.depth_left(), old(context)@.remaining(), 22nat,
{
    reveal(eval_level5);
    reveal(eval_level6);
    reveal(eval_level5_rest);
    let ghost start = context@;
    let mut expr1 = calc_level6(context)?;
    loop
        invariant
            start == old(context)@,
            context@.tokens == start.tokens,
            context@.level == start.level,
            context@.pos >= start.pos,
            ({
                let t = eval_level5_rest(context@, expr1@);
                finish(start, context@.after(t), t.result) == eval_level5(start)
            }),
        decreases context@.remaining(),
    {
        reveal(eval_level5_rest);
        reveal(eval_level6);
        let ghost cur = context@;
        let ghost acc = expr1@;
        let add = matches!(context.peek(), Some(Token::Add));
        let sub = matches!(context.peek(), Some(Token::Sub));
        if !add && !sub {
            return Ok(expr1);
        }
        context.advance();
        assert(context@.depth_left() == start.depth_left());
        assert(context@.remaining() < start.remaining());
        let expr2 = calc_level6(context)?;
        let next = if add {
            sum(&expr1, &expr2)?
        } else {
            difference(&expr1, &expr2)?
        };
        proof {
            let o = eval_level6(cur.skip(1));
            let m1 = cur.skip(1).after(o);
            assert(context@ == m1);
            let t_old = eval_level5_rest(cur, acc);
            let t_new = eval_level5_rest(m1, next@);
            assert(t_old == finish(cur, m1.after(t_new), t_new.result));
            assert(cur.after(t_old) == m1.after(t_new));
        }
        expr1 = next;
    }
}

/// `*`, `/` and `%`, which group to the left.
#[verifier::spinoff_prover]
fn calc_level6(context: &mut Context) -> (r: Result<Number, CalcError>)
    ensures
        agrees(eval_level6(old(context)@), old(context)@, r, final(context)@),
    decreases old(context)@.depth_left(), old(context)@.remaining(), 20nat,
{
    reveal(eval_level6);
    reveal(eval_level7);
    reveal(eval_level6_rest);
    let ghost start = context@;
    let mut expr1 = calc_level7(context)?;
    loop
        invariant
            start == old(context)@,
            context@.tokens == start.tokens,
            context@.level == start.level,
            context@.pos >= start.pos,
            ({
                let t = eval_level6_rest(context@, expr1@);
                finish(start, context@.after(t), t.result) == eval_level6(start)
            }),
        decreases context@.remaining(),
    {
        reveal(eval_level6_rest);
        reveal(eval_level7);
        let ghost cur = context@;
        let ghost acc = expr1@;
        let mul = matches!(context.peek(), Some(Token::Mul));
        let div = matches!(context.peek(), Some(Token::Div));
        let rem = matches!(context.peek(), Some(Token::Rem));
        if !mul && !div && !rem {
            return Ok(expr1);
        }
        context.advance();
        assert(context@.depth_left() == start.depth_left());
        assert(context@.remaining() < start.remaining());
        let expr2 = calc_level7(context)?;
        let next = if mul {
            product(&expr1, &expr2)?
        } else if div {
            ratio(&expr1, &expr2)?
        } else {
            remainder(&expr1, &expr2)?
        };
        proof {
            let o = eval_level7(cur.skip(1));
            let m1 = cur.skip(1).after(o);
            assert(context@ == m1);
            let t_old = eval_level6_rest(cur, acc);
            let t_new = eval_level6_rest(m1, next@);
            assert(t_old == finish(cur, m1.after(t_new), t_new.result));
            assert(cur.after(t_old) == m1.after(t_new));
        }
        expr1 = next;
    }
}

/// `**`, which groups to the right.
#[verifier::spinoff_prover]
fn calc_level7(context: &mut Context) -> (r: Result<Number, CalcError>)
    ensures
        agrees(eval_level7(old(context)@), old(context)@, r, final(context)@),
    decreases old(context)@.depth_left(), old(context)@.remaining(), 18nat,
{
    reveal(eval_level7);
    reveal(eval_level8);
    let expr1 = calc_level8(context)?;
    if matches!(context.peek(), Some(Token::Pow)) {
        context.advance();
        let ghost m1 = context@;
        assert(m1.depth_left() == old(context)@.depth_left());
        assert(m1.remaining() < old(context)@.remaining());
        let expr2 = calc_level7(context)?;
        let ghost left = expr1@;
        let ghost right = expr2@;
        let r = pow(expr1, expr2, None, 0);
        assert(result_view(r) == pow_of(left, right, None, 0));
        assert(eval_level7(old(context)@) == finish(
            old(context)@,
            m1.after(eval_level7(m1)),
            pow_of(left, right, None, 0),
        ));
        return r;
    }
    Ok(expr1)
}

/// Postfix `!`.
#[verifier::spinoff_prover]
fn calc_level8(context: &mut Context) -> (r: Result<Number, CalcError>)
    ensures
        agrees(eval_level8(old(context)@), old(context)@, r, final(context)@),
    decreases old(context)@.depth_left(), old(context)@.remaining(), 16nat,
{
    reveal(eval_level8);
    reveal(eval_level9);
    let expr = calc_level9(context)?;
    if matches!(context.peek(), Some(Token::Factorial)) {
        context.advance();
        let ghost operand = expr@;
        let r = factorial(expr, None, 0);
        assert(result_view(r) == factorial_of(operand, None, 0));
        return r;
    }
    Ok(expr)
}

/// Prefix `~`.
#[verifier::spinoff_prover]
fn calc_level9(context: &mut Context) -> (r: Result<Number, CalcError>)
    ensures
        agrees(eval_level9(old(context)@), old(context)@, r, final(context)@),
    decreases old(context)@.depth_left(), old(context)@.remaining(), 14nat,
{
    reveal(eval_level9);
    reveal(eval_paren);
    if matches!(context.peek(), Some(Token::Not)) {
        context.advance();
        let ghost m1 = context@;
        assert(m1.depth_left() == old(context)@.depth_left());
        assert(m1.remaining() < old(context)@.remaining());
        let expr = calc_level9(context)?;
        let r = not(&expr);
        assert(eval_level9(old(context)@) == finish(
            old(context)@,
            m1.after(eval_level9(m1)),
            not_of(expr@),
        ));
        return r;
    }
    calc_paren(context, None)
}

/// The view of an optional name.
pub open spec fn name_view(name: Option<String>) -> Option<Seq<char>> {
    match name {
        Some(n) => Some(n@),
        None => None,
    }
}

/// Whether the arguments that were read, and what reading them left behind, are what `a`
/// says.
pub open spec fn args_agree(
    a: ArgsOutcome,
    before: Machine,
    r: Result<Vec<Number>, CalcError>,
    after: Machine,
) -> bool {
    &&& after.vars == a.vars
    &&& after.funs == a.funs
    &&& after.tokens == before.tokens
    &&& after.level == before.level
    &&& match r {
        Ok(args) => a.result == Ok::<Seq<Decimal>, Fault>(decimals(args@)) && after.pos
            == before.pos + a.used,
        Err(e) => a.result == Err::<Seq<Decimal>, Fault>(e@),
    }
}

proof fn lemma_decimals_push(numbers: Seq<Number>, n: Number)
    ensures
        decimals(numbers.push(n)) == decimals(numbers).push(n@),
{
    assert(decimals(numbers.push(n)) =~= decimals(numbers).push(n@));
}

fn digit(d: usize) -> (c: char)
    requires
        d < 10,
    ensures
        c == digit_char(d as nat),
{
    if d == 0 {
        '0'
    } else if d == 1 {
        '1'
    } else if d == 2 {
        '2'
    } else if d == 3 {
        '3'
    } else if d == 4 {
        '4'
    } else if d == 5 {
        '5'
    } else if d == 6 {
        '6'
    } else if d == 7 {
        '7'
    } else if d == 8 {
        '8'
    } else {
        '9'
    }
}

fn push_index(text: &mut String, n: usize)
    ensures
        final(text)@ == old(text)@ + index_text(n as nat),
    decreases n,
{
    if n >= 10 {
        push_index(text, n / 10);
    }
    text.push(digit(n % 10));
    assert(text@ =~= old(text)@ + index_text(n as nat));
}

/// The name of the `i`-th positional argument.
fn positional_name(i: usize) -> (r: String)
    ensures
        r@ == arg_name(i as nat),
{
    let mut text = String::new();
    text.push('$');
    push_index(&mut text, i);
    assert(text@ =~= arg_name(i as nat));
    text
}

/// Binds every argument under its positional name.
#[verifier::spinoff_prover]
fn bind_arguments(variables: &mut Variables, args: &Vec<Number>)
    ensures
        final(variables)@ == bind_args(old(variables)@, decimals(args@)),
{
    let mut i: usize = 0;
    while i < args.len()
        invariant
            i <= args.len(),
            variables@ == bind_args(old(variables)@, decimals(args@).take(i as int)),
        decreases args.len() - i,
    {
        let ghost bound = decimals(args@).take(i as int);
        let ghost more = decimals(args@).take(i + 1);
        assert(more.drop_last() =~= bound);
        assert(more.last() == args@[i as int]@);
        variables.insert(positional_name(i + 1), args[i].duplicate());
        i += 1;
    }
    assert(decimals(args@).take(i as int) =~= decimals(args@));
}

/// Removes the positional names `$1` .. `$count`.
fn unbind_arguments(variables: &mut Variables, count: usize)
    ensures
        final(variables)@ == unbind_args(old(variables)@, count as nat),
{
    let mut i: usize = 0;
    while i < count
        invariant
            i <= count,
            variables@ == unbind_args(old(variables)@, i as nat),
        decreases count - i,
    {
        let name = positional_name(i + 1);
        variables.remove(name.as_str());
        i += 1;
    }
}

fn is_called(name: &String, word: &str) -> (r: bool)
    ensures
        r == (name@ == word@),
{
    let other = word.to_owned();
    *name == other
}

/// Reads what stands between the parentheses of a group.
#[verifier::spinoff_prover]
fn read_arguments(context: &mut Context) -> (r: Result<Vec<Number>, CalcError>)
    ensures
        args_agree(eval_group(old(context)@), old(context)@, r, final(context)@),
    decreases old(context)@.depth_left(), old(context)@.remaining(), 11nat,
{
    reveal(eval_group);
    reveal(eval_calculate);
    reveal(eval_args);
    let mut args: Vec<Number> = Vec::new();
    if matches!(context.peek(), Some(Token::ParenClose)) {
        assert(decimals(args@) =~= Seq::<Decimal>::empty());
        return Ok(args);
    }
    if context.level == MAX_LEVEL {
        return Err(CalcError::TooDeep);
    }
    let ghost start = context@;
    context.level += 1;
    assert(context@ == start.deeper());
    assert(context@.depth_left() < start.depth_left());
    let first = match calculate(context) {
        Ok(value) => value,
        Err(e) => {
            context.level -= 1;
            return Err(e);
        },
    };
    assert(decimals(args@.push(first)) =~= seq![first@]);
    args.push(first);
    loop
        invariant
            start == old(context)@,
            start.level < MAX_LEVEL,
            context@.tokens == start.tokens,
            context@.level == start.level + 1,
            context@.pos >= start.pos,
            ({
                let rest = eval_args(context@, decimals(args@));
                let total = eval_group(start);
                &&& total.result == rest.result
                &&& start.pos + total.used == context@.pos + rest.used
                &&& total.vars == rest.vars
                &&& total.funs == rest.funs
            }),
        decreases context@.remaining(),
    {
        reveal(eval_args);
        reveal(eval_calculate);
        if !matches!(context.peek(), Some(Token::Separator)) {
            context.level -= 1;
            return Ok(args);
        }
        let ghost cur = context@;
        let ghost held = decimals(args@);
        context.advance();
        assert(context@.depth_left() < start.depth_left());
        let next = match calculate(context) {
            Ok(value) => value,
            Err(e) => {
                context.level -= 1;
                return Err(e);
            },
        };
        proof {
            lemma_decimals_push(args@, next);
            let o = eval_calculate(cur.skip(1));
            let m1 = cur.skip(1).after(o);
            assert(context@ == m1);
            let rest_old = eval_args(cur, held);
            let rest_new = eval_args(m1, held.push(next@));
            assert(rest_old.result == rest_new.result);
            assert(rest_old.used == 1 + o.used + rest_new.used);
        }
        args.push(next);
    }
}

/// Reads the body of a function definition: the tokens up to and including the parenthesis
/// that closes the one just read.
#[verifier::spinoff_prover]
fn read_definition(context: &mut Context) -> (r: Result<Vec<Token>, CalcError>)
    ensures
        final(context)@.vars == old(context)@.vars,
        final(context)@.funs == old(context)@.funs,
        final(context)@.tokens == old(context)@.tokens,
        final(context)@.level == old(context)@.level,
        match r {
            Ok(body) => {
                &&& definition_end(old(context)@.tokens, old(context)@.pos, 1) == Ok::<nat, Fault>(
                    final(context)@.pos,
                )
                &&& old(context)@.pos <= final(context)@.pos <= old(context)@.tokens.len()
                &&& syms(body@) == old(context)@.tokens.subrange(
                    old(context)@.pos as int,
                    final(context)@.pos as int,
                )
            },
            Err(e) => definition_end(old(context)@.tokens, old(context)@.pos, 1) == Err::<
                nat,
                Fault,
            >(e@),
        },
{
    let mut body: Vec<Token> = Vec::new();
    let mut depth: u8 = 1;
    let ghost start = context@;
    if context.cursor >= context.tokens.len() {
        return Err(CalcError::UnclosedParen);
    }
    assert(syms(body@) =~= start.tokens.subrange(start.pos as int, start.pos as int));
    loop
        invariant
            start == old(context)@,
            context@.tokens == start.tokens,
            context@.level == start.level,
            context@.vars == start.vars,
            context@.funs == start.funs,
            start.pos <= context@.pos <= start.tokens.len(),
            1 <= depth < MAX_LEVEL,
            syms(body@) == start.tokens.subrange(start.pos as int, context@.pos as int),
            definition_end(start.tokens, context@.pos, depth as nat) == definition_end(
                start.tokens,
                start.pos,
                1,
            ),
        decreases start.tokens.len() - context@.pos,
    {
        if context.cursor >= context.tokens.len() {
            return Err(CalcError::UnclosedParen);
        }
        let token = context.tokens[context.cursor].duplicate();
        if matches!(token, Token::Separator) && depth == 1 {
            return Err(CalcError::SeparatorInDef);
        }
        if matches!(token, Token::ParenOpen) {
            depth += 1;
        } else if matches!(token, Token::ParenClose) {
            depth -= 1;
        }
        proof {
            crate::token::lemma_syms_push(body@, token);
            assert(start.tokens.subrange(start.pos as int, context@.pos as int).push(token@)
                =~= start.tokens.subrange(start.pos as int, context@.pos as int + 1));
        }
        body.push(token);
        context.cursor += 1;
        if depth == 0 {
            return Ok(body);
        } else if depth == MAX_LEVEL {
            return Err(CalcError::TooDeep);
        }
    }
}

/// Calls the function `name` with `args`.
#[verifier::spinoff_prover]
fn call_function(context: &mut Context, name: String, args: Vec<Number>) -> (r: Result<
    Number,
    CalcError,
>)
    ensures
        agrees(
            eval_call(old(context)@, name@, decimals(args@)),
            old(context)@,
            r,
            final(context)@,
        ),
    decreases old(context)@.depth_left(), old(context)@.remaining(), 9nat,
{
    reveal(eval_call);
    reveal(eval_calculate);
    let mut body = match context.functions.get(name.as_str()) {
        Some(tokens) => tokens,
        None => {
            return Err(CalcError::UnknownFunction(name));
        },
    };
    if context.level == MAX_LEVEL {
        return Err(CalcError::TooDeep);
    }
    let ghost start = context@;
    bind_arguments(&mut context.variables, &args);
    std::mem::swap(&mut context.tokens, &mut body);
    let cursor = context.cursor;
    let level = context.level;
    context.cursor = 0;
    context.level = level + 1;
    let ghost inner = context@;
    assert(inner == (Machine {
        tokens: start.funs[name@],
        pos: 0,
        level: start.level + 1,
        vars: bind_args(start.vars, decimals(args@)),
        funs: start.funs,
    }));
    assert(inner.depth_left() < start.depth_left());
    let val = calculate(context);
    std::mem::swap(&mut context.tokens, &mut body);
    context.cursor = cursor;
    context.level = level;
    unbind_arguments(&mut context.variables, args.len());
    val
}

/// A group, a call, or a single value.
#[verifier::spinoff_prover]
fn calc_paren(context: &mut Context, name: Option<String>) -> (r: Result<Number, CalcError>)
    ensures
        agrees(eval_paren(old(context)@, name_view(name)), old(context)@, r, final(context)@),
    decreases old(context)@.depth_left(), old(context)@.remaining(), 12nat,
{
    reveal(eval_paren);
    reveal(eval_group);
    reveal(eval_call);
    reveal(eval_number);
    if matches!(context.peek(), Some(Token::ParenOpen)) {
        context.advance();
        assert(context@.depth_left() == old(context)@.depth_left());
        assert(context@.remaining() < old(context)@.remaining());
        let args = read_arguments(context)?;
        if !matches!(context.peek(), Some(Token::ParenClose)) {
            return Err(CalcError::UnclosedParen);
        }
        context.advance();
        let count = args.len();
        match name {
            None => {
                if count != 1 {
                    return Err(CalcError::IncorrectArguments(1, count));
                }
                Ok(args[0].duplicate())
            },
            Some(name) => {
                if is_called(&name, "abs") {
                    if count != 1 {
                        return Err(CalcError::IncorrectArguments(1, count));
                    }
                    Ok(args[0].magnitude())
                } else if is_called(&name, "pow") {
                    if count != 2 {
                        return Err(CalcError::IncorrectArguments(2, count));
                    }
                    let ghost base = args@[0]@;
                    let ghost exponent = args@[1]@;
                    let r = pow(args[0].duplicate(), args[1].duplicate(), None, 0);
                    assert(result_view(r) == pow_of(base, exponent, None, 0));
                    r
                } else {
                    assert(context@.remaining() < old(context)@.remaining());
                    call_function(context, name, args)
                }
            },
        }
    } else {
        let called = match context.peek() {
            Some(Token::BlockName(called)) => Some(called.clone()),
            _ => None,
        };
        if name.is_none() && called.is_some() {
            context.advance();
            assert(context@.depth_left() == old(context)@.depth_left());
            assert(context@.remaining() < old(context)@.remaining());
            calc_paren(context, called)
        } else {
            get_number(context)
        }
    }
}

/// A single value: a literal, a negated value, a variable, or an assignment or definition.
#[verifier::spinoff_prover]
fn get_number(context: &mut Context) -> (r: Result<Number, CalcError>)
    ensures
        agrees(eval_number(old(context)@), old(context)@, r, final(context)@),
    decreases old(context)@.depth_left(), old(context)@.remaining(), 10nat,
{
    reveal(eval_number);
    reveal(eval_paren);
    reveal(eval_calculate);
    let token = match context.peek() {
        Some(token) => token.duplicate(),
        None => {
            return Err(CalcError::InvalidSyntax);
        },
    };
    context.advance();
    assert(context@.depth_left() == old(context)@.depth_left());
    assert(context@.remaining() < old(context)@.remaining());
    match token {
        Token::Num(num) => Ok(num),
        Token::Sub => {
            let value = calc_paren(context, None)?;
            Ok(value.negated())
        },
        Token::VarAssign(name) => {
            if matches!(context.peek(), Some(Token::ParenOpen)) {
                context.advance();
                let body = read_definition(context)?;
                context.functions.insert(name, body);
            } else {
                let value = calculate(context)?;
                context.variables.insert(name, value);
            }
            Ok(Number::from_i64(0))
        },
        Token::VarGet(name) => match context.variables.get(name.as_str()) {
            Some(value) => Ok(value),
            None => Err(CalcError::UnknownVariable(name)),
        },
        _ => Err(CalcError::InvalidSyntax),
    }
}

} // verus!
