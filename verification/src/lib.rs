//! A calculator for arithmetic expressions over arbitrary-precision decimal numbers, with
//! variables, user-defined functions, bitwise operations, factorial and exponentiation.
//!
//! [`parser::parse`] splits the text of an expression into tokens, and
//! [`calculator::calculate`] evaluates them against the maps of variables and functions.
//! What both do is stated in [`parser::tokenize`] and in the [`semantics`] module.

pub mod calculator;
pub mod environment;
pub mod laws;
pub mod number;
pub mod parser;
pub mod semantics;
pub mod token;

use crate::calculator::{calculate, result_view, CalcError, Context};
use crate::environment::{Functions, Variables};
use crate::number::Number;
use crate::semantics::evaluate_text;
use vstd::prelude::*;

verus! {

/// Calls both parser::parse and calculator::calculate
/// and merges the output into one happy Result.
pub fn parse_and_calc(input: &str, variables: &mut Variables, functions: &mut Functions) -> (r:
    Result<Number, CalcError>)
    ensures
        result_view(r) == evaluate_text(input@, old(variables)@, old(functions)@).result,
        final(variables)@ == evaluate_text(input@, old(variables)@, old(functions)@).vars,
        final(functions)@ == evaluate_text(input@, old(variables)@, old(functions)@).funs,
{
    let tokens = match crate::parser::parse(input) {
        Ok(tokens) => tokens,
        Err(e) => {
            return Err(CalcError::ParseError(e));
        },
    };
    let mut held_variables = Variables::new();
    let mut held_functions = Functions::new();
    std::mem::swap(variables, &mut held_variables);
    std::mem::swap(functions, &mut held_functions);
    let mut context = Context::new(tokens, held_variables, held_functions);
    let r = calculate(&mut context);
    let (mut left_variables, mut left_functions) = context.into_maps();
    std::mem::swap(variables, &mut left_variables);
    std::mem::swap(functions, &mut left_functions);
    r
}

} // verus!
