//! What an expression means: the evaluation of a token sequence, written as mathematical
//! functions from a [`Machine`] (tokens, cursor, nesting level, variables, functions) to an
//! [`Outcome`] (a number or a fault, the tokens used up, and the maps as they are left).
//!
//! Operators bind in this order, loosest first: `^`, `|`, `&`, shifts, `+ -`, `* / %`, `**`,
//! postfix `!`, prefix `~`, and then groups, calls, literals, variables and assignments.
//! `^`, `|`, `&` and `**` group to the right; shifts, sums and products to the left.

use crate::number::Decimal;
use crate::parser::{tokenize, ParseFault};
use crate::token::Sym;
use vstd::arithmetic::power2::pow2;
use vstd::prelude::*;

verus! {

/// The nesting level at which evaluation gives up.
pub const MAX_LEVEL: u8 = 255;

/// The mathematical content of an evaluation error.
pub ghost enum Fault {
    DivideByZero,
    ExpectedEOF(Sym),
    IncorrectArguments(nat, nat),
    InvalidSyntax,
    NotAPositive,
    NotAPrimitive(Seq<char>),
    NotAWhole,
    ParseError(ParseFault),
    SeparatorInDef,
    TooDeep,
    TooLarge,
    UnclosedParen,
    UnknownFunction(Seq<char>),
    UnknownVariable(Seq<char>),
}

/// The state of an evaluation.
pub ghost struct Machine {
    pub tokens: Seq<Sym>,
    /// Index of the next token to read.
    pub pos: nat,
    /// How deeply nested the current position is: 0 at the top, one more inside each group
    /// and each function body.
    pub level: nat,
    pub vars: Map<Seq<char>, Decimal>,
    pub funs: Map<Seq<char>, Seq<Sym>>,
}

/// The result of evaluating one construct.
pub ghost struct Outcome {
    pub result: Result<Decimal, Fault>,
    /// How many tokens were read. Meaningful on success.
    pub used: nat,
    pub vars: Map<Seq<char>, Decimal>,
    pub funs: Map<Seq<char>, Seq<Sym>>,
}

/// The result of evaluating the arguments of a group.
pub ghost struct ArgsOutcome {
    pub result: Result<Seq<Decimal>, Fault>,
    pub used: nat,
    pub vars: Map<Seq<char>, Decimal>,
    pub funs: Map<Seq<char>, Seq<Sym>>,
}

impl Machine {
    /// The next token, if any is left.
    pub open spec fn peek(self) -> Option<Sym> {
        if self.pos < self.tokens.len() {
            Some(self.tokens[self.pos as int])
        } else {
            None
        }
    }

    /// How many tokens are left.
    pub open spec fn remaining(self) -> nat {
        if self.pos < self.tokens.len() {
            (self.tokens.len() - self.pos) as nat
        } else {
            0
        }
    }

    /// How many more levels may be entered.
    pub open spec fn depth_left(self) -> nat {
        if self.level < MAX_LEVEL {
            (MAX_LEVEL - self.level) as nat
        } else {
            0
        }
    }

    /// The machine `n` tokens further on.
    pub open spec fn skip(self, n: nat) -> Machine {
        Machine { pos: self.pos + n, ..self }
    }

    /// The machine one level deeper.
    pub open spec fn deeper(self) -> Machine {
        Machine { level: self.level + 1, ..self }
    }

    /// The machine as a successful evaluation that started here leaves it.
    pub open spec fn after(self, o: Outcome) -> Machine {
        Machine { pos: self.pos + o.used, vars: o.vars, funs: o.funs, ..self }
    }

    /// The machine as the successful evaluation of a group's arguments leaves it.
    pub open spec fn after_args(self, a: ArgsOutcome) -> Machine {
        Machine { pos: self.pos + a.used, vars: a.vars, funs: a.funs, ..self }
    }

    /// The machine with other maps.
    pub open spec fn with_maps(
        self,
        vars: Map<Seq<char>, Decimal>,
        funs: Map<Seq<char>, Seq<Sym>>,
    ) -> Machine {
        Machine { vars, funs, ..self }
    }
}

/// The outcome of an evaluation that started at `from` and stopped at `at` with `result`.
pub open spec fn finish(from: Machine, at: Machine, result: Result<Decimal, Fault>) -> Outcome {
    Outcome { result, used: (at.pos - from.pos) as nat, vars: at.vars, funs: at.funs }
}

/// The character of a decimal digit.
pub open spec fn digit_char(d: nat) -> char
    recommends
        d < 10,
{
    seq!['0', '1', '2', '3', '4', '5', '6', '7', '8', '9'][d as int]
}

/// A natural number written in decimal digits.
pub open spec fn index_text(n: nat) -> Seq<char>
    decreases n,
{
    if n < 10 {
        seq![digit_char(n)]
    } else {
        index_text(n / 10).push(digit_char(n % 10))
    }
}

/// The name under which the `i`-th argument of a call (counted from 1) is visible to the
/// body of the function: `$1`, `$2`, ..
pub open spec fn arg_name(i: nat) -> Seq<char> {
    seq!['$'] + index_text(i)
}

/// The variables with every argument bound under its positional name.
pub open spec fn bind_args(vars: Map<Seq<char>, Decimal>, args: Seq<Decimal>) -> Map<
    Seq<char>,
    Decimal,
>
    decreases args.len(),
{
    if args.len() == 0 {
        vars
    } else {
        bind_args(vars, args.drop_last()).insert(arg_name(args.len()), args.last())
    }
}

/// The variables with the positional names `$1` .. `$n` removed.
pub open spec fn unbind_args(vars: Map<Seq<char>, Decimal>, n: nat) -> Map<Seq<char>, Decimal>
    decreases n,
{
    if n == 0 {
        vars
    } else {
        unbind_args(vars, (n - 1) as nat).remove(arg_name(n))
    }
}

/// Why a number is not accepted where a whole number is needed, if it is not.
#[verifier::opaque]
pub open spec fn whole_fault(d: Decimal) -> Option<Fault> {
    if !d.bounded() {
        Some(Fault::TooLarge)
    } else if !d.is_whole() {
        Some(Fault::NotAWhole)
    } else {
        None
    }
}

/// Why a number is not accepted where a number that is not negative is needed, if it is not.
#[verifier::opaque]
pub open spec fn positive_fault(d: Decimal) -> Option<Fault> {
    if d.is_negative() {
        Some(Fault::NotAPositive)
    } else {
        None
    }
}

/// `acc * n * (n - 1) * .. * 1`, multiplying one factor at each step and counting the steps
/// in `times`.
pub open spec fn factorial_from(n: Decimal, acc: Decimal, times: nat) -> Result<Decimal, Fault>
    decreases MAX_LEVEL - times,
{
    if times >= MAX_LEVEL {
        Err(Fault::TooDeep)
    } else if n.is_zero() {
        Ok(acc)
    } else {
        match acc.checked_times(n) {
            None => Err(Fault::TooLarge),
            Some(product) => match n.checked_minus(Decimal::integer(1)) {
                None => Err(Fault::TooLarge),
                Some(rest) => factorial_from(rest, product, times + 1),
            },
        }
    }
}

/// The factorial of `num`, multiplied onto `acc` (or onto one), with `times` steps already
/// counted.
#[verifier::opaque]
pub open spec fn factorial_of(num: Decimal, acc: Option<Decimal>, times: nat) -> Result<
    Decimal,
    Fault,
> {
    if times >= MAX_LEVEL {
        Err(Fault::TooDeep)
    } else if whole_fault(num) is Some {
        Err(whole_fault(num)->0)
    } else if positive_fault(num) is Some {
        Err(positive_fault(num)->0)
    } else {
        factorial_from(
            num,
            match acc {
                Some(a) => a,
                None => Decimal::integer(1),
            },
            times,
        )
    }
}

/// `acc * base^exp` by binary exponentiation: at each step the accumulator takes the base
/// where the exponent is odd, the exponent is halved, and the base is squared if anything
/// of the exponent is left. Each step counts once in `times`.
pub open spec fn power_from(base: Decimal, exp: int, acc: Decimal, times: nat) -> Result<
    Decimal,
    Fault,
>
    decreases MAX_LEVEL - times,
{
    if exp == 0 {
        Ok(acc)
    } else if times >= MAX_LEVEL {
        Err(Fault::TooDeep)
    } else {
        let taken = if exp % 2 != 0 {
            acc.checked_times(base)
        } else {
            Some(acc)
        };
        match taken {
            None => Err(Fault::TooLarge),
            Some(a) => if exp / 2 == 0 {
                Ok(a)
            } else {
                match base.checked_times(base) {
                    None => Err(Fault::TooLarge),
                    Some(square) => power_from(square, exp / 2, a, times + 1),
                }
            },
        }
    }
}

/// `num` to the power of `power`, multiplied onto `acc` (or onto one), with `times` steps
/// already counted. The base must not be negative and the exponent must be whole. For a
/// negative exponent the base is first replaced by its reciprocal, which counts as a step.
#[verifier::opaque]
pub open spec fn pow_of(num: Decimal, power: Decimal, acc: Option<Decimal>, times: nat) -> Result<
    Decimal,
    Fault,
> {
    let start = match acc {
        Some(a) => a,
        None => Decimal::integer(1),
    };
    if times >= MAX_LEVEL {
        Err(Fault::TooDeep)
    } else if positive_fault(num) is Some {
        Err(positive_fault(num)->0)
    } else if whole_fault(power) is Some {
        Err(whole_fault(power)->0)
    } else if power.is_zero() {
        Ok(start)
    } else if power.is_negative() {
        if num.is_zero() {
            Err(Fault::DivideByZero)
        } else {
            match Decimal::integer(1).checked_over(num) {
                None => Err(Fault::TooLarge),
                Some(inverse) => power_from(
                    inverse,
                    power.magnitude().whole_part(),
                    start,
                    times + 1,
                ),
            }
        }
    } else {
        power_from(num, power.magnitude().whole_part(), start, times)
    }
}

/// The name of the primitive that the operands of `^`, `|` and `&` must be, and that the
/// integer part of the operand of `~` must fit.
pub open spec fn signed_primitive() -> Seq<char> {
    "i64"@
}

/// The name of the primitive that a shift distance must fit.
pub open spec fn unsigned_primitive() -> Seq<char> {
    "usize"@
}

/// The number as an `i64`, where it is one: whole, and within the range of `i64`.
pub open spec fn exact_i64(d: Decimal) -> Option<i64> {
    if d.bounded() && d.is_whole() {
        d.to_i64()
    } else {
        None
    }
}

/// `a ^ b`: both operands must be whole numbers within the range of `i64`.
#[verifier::opaque]
pub open spec fn xor_of(a: Decimal, b: Decimal) -> Result<Decimal, Fault> {
    match (exact_i64(a), exact_i64(b)) {
        (Some(x), Some(y)) => Ok(Decimal::integer((x ^ y) as int)),
        _ => Err(Fault::NotAPrimitive(signed_primitive())),
    }
}

/// `a | b`: as for `^`.
#[verifier::opaque]
pub open spec fn or_of(a: Decimal, b: Decimal) -> Result<Decimal, Fault> {
    match (exact_i64(a), exact_i64(b)) {
        (Some(x), Some(y)) => Ok(Decimal::integer((x | y) as int)),
        _ => Err(Fault::NotAPrimitive(signed_primitive())),
    }
}

/// `a & b`: as for `^`.
#[verifier::opaque]
pub open spec fn and_of(a: Decimal, b: Decimal) -> Result<Decimal, Fault> {
    match (exact_i64(a), exact_i64(b)) {
        (Some(x), Some(y)) => Ok(Decimal::integer((x & y) as int)),
        _ => Err(Fault::NotAPrimitive(signed_primitive())),
    }
}

/// `~a`: the complement of the integer part of `a`, which must fit an `i64`.
#[verifier::opaque]
pub open spec fn not_of(a: Decimal) -> Result<Decimal, Fault> {
    match a.to_i64() {
        Some(x) => Ok(Decimal::integer((!x) as int)),
        None => Err(Fault::NotAPrimitive(signed_primitive())),
    }
}

/// `a << b`: the distance must fit a `usize`, then the left side must be whole; the result
/// is exact.
#[verifier::opaque]
pub open spec fn shl_of(a: Decimal, b: Decimal) -> Result<Decimal, Fault> {
    match b.to_usize() {
        None => Err(Fault::NotAPrimitive(unsigned_primitive())),
        Some(k) => if whole_fault(a) is Some {
            Err(whole_fault(a)->0)
        } else {
            Ok(Decimal::integer(a.whole_part() * pow2(k as nat)))
        },
    }
}

/// `a >> b`: as for `<<`; the result is rounded down.
#[verifier::opaque]
pub open spec fn shr_of(a: Decimal, b: Decimal) -> Result<Decimal, Fault> {
    match b.to_usize() {
        None => Err(Fault::NotAPrimitive(unsigned_primitive())),
        Some(k) => if whole_fault(a) is Some {
            Err(whole_fault(a)->0)
        } else {
            Ok(Decimal::integer(a.whole_part() / (pow2(k as nat) as int)))
        },
    }
}

/// `a + b`: exact; an operand out of range is refused.
#[verifier::opaque]
pub open spec fn sum_of(a: Decimal, b: Decimal) -> Result<Decimal, Fault> {
    match a.checked_plus(b) {
        Some(d) => Ok(d),
        None => Err(Fault::TooLarge),
    }
}

/// `a - b`: exact; an operand out of range is refused.
#[verifier::opaque]
pub open spec fn difference_of(a: Decimal, b: Decimal) -> Result<Decimal, Fault> {
    match a.checked_minus(b) {
        Some(d) => Ok(d),
        None => Err(Fault::TooLarge),
    }
}

/// `a * b`: exact; an operand out of range is refused.
#[verifier::opaque]
pub open spec fn product_of(a: Decimal, b: Decimal) -> Result<Decimal, Fault> {
    match a.checked_times(b) {
        Some(d) => Ok(d),
        None => Err(Fault::TooLarge),
    }
}

/// `a / b`: a zero divisor is refused.
#[verifier::opaque]
pub open spec fn ratio_of(a: Decimal, b: Decimal) -> Result<Decimal, Fault> {
    if b.is_zero() {
        Err(Fault::DivideByZero)
    } else {
        match a.checked_over(b) {
            Some(d) => Ok(d),
            None => Err(Fault::TooLarge),
        }
    }
}

/// `a % b`: the remainder of the integer parts, with the sign of `a`. A divisor whose
/// integer part is zero is refused.
#[verifier::opaque]
pub open spec fn remainder_of(a: Decimal, b: Decimal) -> Result<Decimal, Fault> {
    if b.is_zero() {
        Err(Fault::DivideByZero)
    } else if !a.bounded() || !b.bounded() {
        Err(Fault::TooLarge)
    } else {
        match a.checked_remainder(b) {
            Some(d) => Ok(d),
            None => Err(Fault::DivideByZero),
        }
    }
}

/// Where the body of a function definition ends: the index just behind the parenthesis that
/// closes the one opened before `pos`, `depth` being the number of parentheses open at
/// `pos`. A separator directly inside the outermost parenthesis is refused.
pub open spec fn definition_end(tokens: Seq<Sym>, pos: nat, depth: nat) -> Result<nat, Fault>
    decreases tokens.len() - pos,
{
    if pos >= tokens.len() {
        Err(Fault::UnclosedParen)
    } else if tokens[pos as int] == Sym::Separator && depth == 1 {
        Err(Fault::SeparatorInDef)
    } else {
        let inner: int = if tokens[pos as int] == Sym::ParenOpen {
            depth as int + 1
        } else if tokens[pos as int] == Sym::ParenClose {
            depth - 1
        } else {
            depth as int
        };
        if inner <= 0 {
            Ok(pos + 1)
        } else if inner >= MAX_LEVEL {
            Err(Fault::TooDeep)
        } else {
            definition_end(tokens, pos + 1, inner as nat)
        }
    }
}

/// A whole expression: the loosest level, `^`, and the check of what follows it. At the top
/// level nothing may follow; inside a group or a function body a `)` or a `,` may, and is
/// left for the caller.
#[verifier::opaque]
pub open spec fn eval_calculate(m: Machine) -> Outcome
    decreases m.depth_left(), m.remaining(), 30nat,
{
    if m.level >= MAX_LEVEL {
        finish(m, m, Err(Fault::TooDeep))
    } else {
        let o1 = eval_level2(m);
        match o1.result {
            Err(_) => o1,
            Ok(e1) => {
                let m1 = m.after(o1);
                if m1.peek() == Some(Sym::Xor) {
                    let o2 = eval_calculate(m1.skip(1));
                    match o2.result {
                        Err(f) => finish(m, m1.skip(1).after(o2), Err(f)),
                        Ok(e2) => finish(m, m1.skip(1).after(o2), xor_of(e1, e2)),
                    }
                } else {
                    match m1.peek() {
                        None => finish(m, m1, Ok(e1)),
                        Some(t) => if (t == Sym::ParenClose || t == Sym::Separator) && m.level
                            != 0 {
                            finish(m, m1, Ok(e1))
                        } else {
                            finish(m, m1, Err(Fault::ExpectedEOF(t)))
                        },
                    }
                }
            },
        }
    }
}

/// `|`.
#[verifier::opaque]
pub open spec fn eval_level2(m: Machine) -> Outcome
    decreases m.depth_left(), m.remaining(), 28nat,
{
    let o1 = eval_level3(m);
    match o1.result {
        Err(_) => o1,
        Ok(e1) => {
            let m1 = m.after(o1);
            if m1.peek() == Some(Sym::Or) {
                let o2 = eval_level2(m1.skip(1));
                match o2.result {
                    Err(f) => finish(m, m1.skip(1).after(o2), Err(f)),
                    Ok(e2) => finish(m, m1.skip(1).after(o2), or_of(e1, e2)),
                }
            } else {
                o1
            }
        },
    }
}

/// `&`.
#[verifier::opaque]
pub open spec fn eval_level3(m: Machine) -> Outcome
    decreases m.depth_left(), m.remaining(), 26nat,
{
    let o1 = eval_level4(m);
    match o1.result {
        Err(_) => o1,
        Ok(e1) => {
            let m1 = m.after(o1);
            if m1.peek() == Some(Sym::And) {
                let o2 = eval_level3(m1.skip(1));
                match o2.result {
                    Err(f) => finish(m, m1.skip(1).after(o2), Err(f)),
                    Ok(e2) => finish(m, m1.skip(1).after(o2), and_of(e1, e2)),
                }
            } else {
                o1
            }
        },
    }
}

/// `<<` and `>>`.
#[verifier::opaque]
pub open spec fn eval_level4(m: Machine) -> Outcome
    decreases m.depth_left(), m.remaining(), 24nat,
{
    let o1 = eval_level5(m);
    match o1.result {
        Err(_) => o1,
        Ok(e1) => {
            let t = eval_level4_rest(m.after(o1), e1);
            finish(m, m.after(o1).after(t), t.result)
        },
    }
}

/// What follows the first operand of a chain of shifts, `acc` being the value so far.
#[verifier::opaque]
pub open spec fn eval_level4_rest(m: Machine, acc: Decimal) -> Outcome
    decreases m.depth_left(), m.remaining(), 23nat,
{
    if m.peek() == Some(Sym::BitshiftLeft) || m.peek() == Some(Sym::BitshiftRight) {
        let o = eval_level5(m.skip(1));
        match o.result {
            Err(f) => finish(m, m.skip(1).after(o), Err(f)),
            Ok(e2) => {
                let m1 = m.skip(1).after(o);
                let r = if m.peek() == Some(Sym::BitshiftLeft) {
                    shl_of(acc, e2)
                } else {
                    shr_of(acc, e2)
                };
                match r {
                    Err(f) => finish(m, m1, Err(f)),
                    Ok(v) => {
                        let t = eval_level4_rest(m1, v);
                        finish(m, m1.after(t), t.result)
                    },
                }
            },
        }
    } else {
        finish(m, m, Ok(acc))
    }
}

/// `+` and `-`.
#[verifier::opaque]
pub open spec fn eval_level5(m: Machine) -> Outcome
    decreases m.depth_left(), m.remaining(), 22nat,
{
    let o1 = eval_level6(m);
    match o1.result {
        Err(_) => o1,
        Ok(e1) => {
            let t = eval_level5_rest(m.after(o1), e1);
            finish(m, m.after(o1).after(t), t.result)
        },
    }
}

/// What follows the first operand of a sum, `acc` being the value so far.
#[verifier::opaque]
pub open spec fn eval_level5_rest(m: Machine, acc: Decimal) -> Outcome
    decreases m.depth_left(), m.remaining(), 21nat,
{
    if m.peek() == Some(Sym::Add) || m.peek() == Some(Sym::Sub) {
        let o = eval_level6(m.skip(1));
        match o.result {
            Err(f) => finish(m, m.skip(1).after(o), Err(f)),
            Ok(e2) => {
                let m1 = m.skip(1).after(o);
                let r = if m.peek() == Some(Sym::Add) {
                    sum_of(acc, e2)
                } else {
                    difference_of(acc, e2)
                };
                match r {
                    Err(f) => finish(m, m1, Err(f)),
                    Ok(v) => {
                        let t = eval_level5_rest(m1, v);
                        finish(m, m1.after(t), t.result)
                    },
                }
            },
        }
    } else {
        finish(m, m, Ok(acc))
    }
}

/// `*`, `/` and `%`.
#[verifier::opaque]
pub open spec fn eval_level6(m: Machine) -> Outcome
    decreases m.depth_left(), m.remaining(), 20nat,
{
    let o1 = eval_level7(m);
    match o1.result {
        Err(_) => o1,
        Ok(e1) => {
            let t = eval_level6_rest(m.after(o1), e1);
            finish(m, m.after(o1).after(t), t.result)
        },
    }
}

/// What follows the first operand of a product, `acc` being the value so far.
#[verifier::opaque]
pub open spec fn eval_level6_rest(m: Machine, acc: Decimal) -> Outcome
    decreases m.depth_left(), m.remaining(), 19nat,
{
    if m.peek() == Some(Sym::Mul) || m.peek() == Some(Sym::Div) || m.peek() == Some(Sym::Rem) {
        let o = eval_level7(m.skip(1));
        match o.result {
            Err(f) => finish(m, m.skip(1).after(o), Err(f)),
            Ok(e2) => {
                let m1 = m.skip(1).after(o);
                let r = if m.peek() == Some(Sym::Mul) {
                    product_of(acc, e2)
                } else if m.peek() == Some(Sym::Div) {
                    ratio_of(acc, e2)
                } else {
                    remainder_of(acc, e2)
                };
                match r {
                    Err(f) => finish(m, m1, Err(f)),
                    Ok(v) => {
                        let t = eval_level6_rest(m1, v);
                        finish(m, m1.after(t), t.result)
                    },
                }
            },
        }
    } else {
        finish(m, m, Ok(acc))
    }
}

/// `**`.
#[verifier::opaque]
pub open spec fn eval_level7(m: Machine) -> Outcome
    decreases m.depth_left(), m.remaining(), 18nat,
{
    let o1 = eval_level8(m);
    match o1.result {
        Err(_) => o1,
        Ok(e1) => {
            let m1 = m.after(o1);
            if m1.peek() == Some(Sym::Pow) {
                let o2 = eval_level7(m1.skip(1));
                match o2.result {
                    Err(f) => finish(m, m1.skip(1).after(o2), Err(f)),
                    Ok(e2) => finish(m, m1.skip(1).after(o2), pow_of(e1, e2, None, 0)),
                }
            } else {
                o1
            }
        },
    }
}

/// Postfix `!`.
#[verifier::opaque]
pub open spec fn eval_level8(m: Machine) -> Outcome
    decreases m.depth_left(), m.remaining(), 16nat,
{
    let o1 = eval_level9(m);
    match o1.result {
        Err(_) => o1,
        Ok(e) => {
            let m1 = m.after(o1);
            if m1.peek() == Some(Sym::Factorial) {
                finish(m, m1.skip(1), factorial_of(e, None, 0))
            } else {
                o1
            }
        },
    }
}

/// Prefix `~`.
#[verifier::opaque]
pub open spec fn eval_level9(m: Machine) -> Outcome
    decreases m.depth_left(), m.remaining(), 14nat,
{
    if m.peek() == Some(Sym::Not) {
        let o = eval_level9(m.skip(1));
        match o.result {
            Err(f) => finish(m, m.skip(1).after(o), Err(f)),
            Ok(e) => finish(m, m.skip(1).after(o), not_of(e)),
        }
    } else {
        eval_paren(m, None)
    }
}

/// A group `( .. )`, a call `name( .. )`, or else a single value. `named` is the name that
/// was read just before, if any. A group without a name holds exactly one expression; `abs`
/// takes one argument, `pow` two; any other name calls a function that was defined.
#[verifier::opaque]
pub open spec fn eval_paren(m: Machine, named: Option<Seq<char>>) -> Outcome
    decreases m.depth_left(), m.remaining(), 12nat,
{
    if m.peek() == Some(Sym::ParenOpen) {
        let a = eval_group(m.skip(1));
        let m2 = m.skip(1).after_args(a);
        match a.result {
            Err(f) => finish(m, m2, Err(f)),
            Ok(args) => if m2.peek() != Some(Sym::ParenClose) {
                finish(m, m2, Err(Fault::UnclosedParen))
            } else {
                let m3 = m2.skip(1);
                match named {
                    None => if args.len() != 1 {
                        finish(m, m3, Err(Fault::IncorrectArguments(1, args.len())))
                    } else {
                        finish(m, m3, Ok(args[0]))
                    },
                    Some(name) => if name == "abs"@ {
                        if args.len() != 1 {
                            finish(m, m3, Err(Fault::IncorrectArguments(1, args.len())))
                        } else {
                            finish(m, m3, Ok(args[0].magnitude()))
                        }
                    } else if name == "pow"@ {
                        if args.len() != 2 {
                            finish(m, m3, Err(Fault::IncorrectArguments(2, args.len())))
                        } else {
                            finish(m, m3, pow_of(args[0], args[1], None, 0))
                        }
                    } else {
                        let c = eval_call(m3, name, args);
                        finish(m, m3.after(c), c.result)
                    },
                }
            },
        }
    } else if named is None && m.peek() is Some && m.peek()->0 is BlockName {
        let o = eval_paren(m.skip(1), Some(m.peek()->0->BlockName_0));
        finish(m, m.skip(1).after(o), o.result)
    } else {
        eval_number(m)
    }
}

/// What stands between the parentheses of a group, `m` being just behind the `(`: nothing,
/// or one expression, or several that are separated by `,`. They are evaluated one level
/// deeper.
#[verifier::opaque]
pub open spec fn eval_group(m: Machine) -> ArgsOutcome
    decreases m.depth_left(), m.remaining(), 11nat,
{
    if m.peek() == Some(Sym::ParenClose) {
        ArgsOutcome { result: Ok(Seq::empty()), used: 0, vars: m.vars, funs: m.funs }
    } else if m.level >= MAX_LEVEL {
        ArgsOutcome { result: Err(Fault::TooDeep), used: 0, vars: m.vars, funs: m.funs }
    } else {
        let o = eval_calculate(m.deeper());
        match o.result {
            Err(f) => ArgsOutcome { result: Err(f), used: o.used, vars: o.vars, funs: o.funs },
            Ok(v) => {
                let rest = eval_args(m.deeper().after(o), seq![v]);
                ArgsOutcome {
                    result: rest.result,
                    used: o.used + rest.used,
                    vars: rest.vars,
                    funs: rest.funs,
                }
            },
        }
    }
}

/// A call of the function `name` with `args`, `m` being just behind the `)`. Each argument
/// is bound under its positional name, the body of the function is evaluated as a sequence
/// of its own, one level deeper, and the positional names are removed again, whether the
/// body succeeded or not. The call reads no token.
#[verifier::opaque]
pub open spec fn eval_call(m: Machine, name: Seq<char>, args: Seq<Decimal>) -> Outcome
    decreases m.depth_left(), m.remaining(), 9nat,
{
    if !m.funs.contains_key(name) {
        finish(m, m, Err(Fault::UnknownFunction(name)))
    } else if m.level >= MAX_LEVEL {
        finish(m, m, Err(Fault::TooDeep))
    } else {
        let o = eval_calculate(
            Machine {
                tokens: m.funs[name],
                pos: 0,
                level: m.level + 1,
                vars: bind_args(m.vars, args),
                funs: m.funs,
            },
        );
        finish(m, m.with_maps(unbind_args(o.vars, args.len()), o.funs), o.result)
    }
}

/// The arguments of a group behind the first: each one follows a `,`. `args` holds the
/// values so far.
#[verifier::opaque]
pub open spec fn eval_args(m: Machine, args: Seq<Decimal>) -> ArgsOutcome
    decreases m.depth_left(), m.remaining(), 11nat,
{
    if m.peek() == Some(Sym::Separator) {
        let o = eval_calculate(m.skip(1));
        match o.result {
            Err(f) => ArgsOutcome { result: Err(f), used: 1 + o.used, vars: o.vars, funs: o.funs },
            Ok(v) => {
                let rest = eval_args(m.skip(1).after(o), args.push(v));
                ArgsOutcome {
                    result: rest.result,
                    used: 1 + o.used + rest.used,
                    vars: rest.vars,
                    funs: rest.funs,
                }
            },
        }
    } else {
        ArgsOutcome { result: Ok(args), used: 0, vars: m.vars, funs: m.funs }
    }
}

/// A single value: a literal, a negated value, a variable, or an assignment or definition,
/// whose own value is zero.
#[verifier::opaque]
pub open spec fn eval_number(m: Machine) -> Outcome
    decreases m.depth_left(), m.remaining(), 10nat,
{
    match m.peek() {
        Some(Sym::Num(d)) => finish(m, m.skip(1), Ok(d)),
        Some(Sym::Sub) => {
            let o = eval_paren(m.skip(1), None);
            match o.result {
                Err(f) => finish(m, m.skip(1).after(o), Err(f)),
                Ok(v) => finish(m, m.skip(1).after(o), Ok(v.negated())),
            }
        },
        Some(Sym::VarAssign(name)) => {
            let m1 = m.skip(1);
            if m1.peek() == Some(Sym::ParenOpen) {
                match definition_end(m.tokens, m1.pos + 1, 1) {
                    Err(f) => finish(m, m1, Err(f)),
                    Ok(end) => finish(
                        m,
                        Machine {
                            pos: end,
                            funs: m.funs.insert(
                                name,
                                m.tokens.subrange(m1.pos as int + 1, end as int),
                            ),
                            ..m
                        },
                        Ok(Decimal::integer(0)),
                    ),
                }
            } else {
                let o = eval_calculate(m1);
                match o.result {
                    Err(f) => finish(m, m1.after(o), Err(f)),
                    Ok(v) => finish(
                        m,
                        m1.after(o).with_maps(o.vars.insert(name, v), o.funs),
                        Ok(Decimal::integer(0)),
                    ),
                }
            }
        },
        Some(Sym::VarGet(name)) => if m.vars.contains_key(name) {
            finish(m, m.skip(1), Ok(m.vars[name]))
        } else {
            finish(m, m.skip(1), Err(Fault::UnknownVariable(name)))
        },
        _ => finish(m, m.skip(1), Err(Fault::InvalidSyntax)),
    }
}

/// The evaluation of a token sequence at the top level.
pub open spec fn evaluate_tokens(
    tokens: Seq<Sym>,
    vars: Map<Seq<char>, Decimal>,
    funs: Map<Seq<char>, Seq<Sym>>,
) -> Outcome {
    eval_calculate(Machine { tokens, pos: 0, level: 0, vars, funs })
}

/// The evaluation of an expression given as text: its tokens are evaluated at the top level;
/// text that cannot be split into tokens is a fault and leaves the maps as they are.
pub open spec fn evaluate_text(
    text: Seq<char>,
    vars: Map<Seq<char>, Decimal>,
    funs: Map<Seq<char>, Seq<Sym>>,
) -> Outcome {
    match tokenize(text) {
        Ok(tokens) => evaluate_tokens(tokens, vars, funs),
        Err(fault) => Outcome { result: Err(Fault::ParseError(fault)), used: 0, vars, funs },
    }
}

} // verus!
