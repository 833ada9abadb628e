//! Laws of evaluation: statements about every input of a given shape, proved from the
//! definitions in [`crate::semantics`].

use crate::number::{pow10, Decimal};
use crate::parser::{tokenize, ParseFault};
use crate::semantics::{
    arg_name, bind_args, definition_end, difference_of, eval_args, eval_calculate, eval_call,
    eval_group, eval_level2, eval_level3, eval_level4, eval_level4_rest, eval_level5,
    eval_level5_rest, eval_level6, eval_level6_rest, eval_level7, eval_level8, eval_level9,
    eval_number, eval_paren, evaluate_text, evaluate_tokens, factorial_from, factorial_of,
    finish, positive_fault, pow_of, power_from, product_of, ratio_of, remainder_of, sum_of,
    unbind_args, whole_fault, ArgsOutcome, Fault, MAX_LEVEL, Machine, Outcome,
};
use crate::token::Sym;
use vstd::arithmetic::power::{
    lemma_pow0, lemma_pow1, lemma_pow_adds, lemma_pow_multiplies, lemma_square_is_pow2, pow,
};
use vstd::arithmetic::power2::{lemma2_to64, lemma_pow2_unfold, pow2};
use vstd::prelude::*;

verus! {

/// Whether a token continues a product: `*`, `/` or `%`.
pub open spec fn is_multiplicative(t: Option<Sym>) -> bool {
    t == Some(Sym::Mul) || t == Some(Sym::Div) || t == Some(Sym::Rem)
}

/// Whether a token binds tighter than a product: `!` or `**`.
pub open spec fn is_postfix(t: Option<Sym>) -> bool {
    t == Some(Sym::Factorial) || t == Some(Sym::Pow)
}

/// Whether a token continues a sum: `+` or `-`.
pub open spec fn is_additive(t: Option<Sym>) -> bool {
    t == Some(Sym::Add) || t == Some(Sym::Sub)
}

/// Whether a token opens something other than a single value: `~`, `(`, or the name of a
/// call.
pub open spec fn is_opening(t: Option<Sym>) -> bool {
    t == Some(Sym::Not) || t == Some(Sym::ParenOpen) || (t is Some && t->0 is BlockName)
}

/// Whether an expression may end in front of this token at this level: at the end of the
/// tokens, or, inside a group or a function body, in front of `)` or `,`.
pub open spec fn is_closing(t: Option<Sym>, level: nat) -> bool {
    t is None || (level != 0 && (t == Some(Sym::ParenClose) || t == Some(Sym::Separator)))
}

/// Whether `end` is where an evaluation that started at `m` may have stopped: the same
/// tokens, the same level, not before `m`.
pub open spec fn follows(m: Machine, end: Machine) -> bool {
    end.tokens == m.tokens && end.level == m.level && end.pos >= m.pos
}

/// A group, call or value that is not behind `~` and that no `!` and no `**` follows is a
/// factor. A fault is a fault of the factor.
#[verifier::spinoff_prover]
pub proof fn lemma_primary_is_factor(m: Machine, end: Machine, r: Result<Decimal, Fault>)
    requires
        eval_paren(m, None) == finish(m, end, r),
        follows(m, end),
        m.peek() != Some(Sym::Not),
        r is Ok ==> !is_postfix(end.peek()),
    ensures
        eval_level7(m) == finish(m, end, r),
{
    reveal(eval_paren);
    reveal(eval_level9);
    reveal(eval_level8);
    reveal(eval_level7);
    assert(eval_level9(m) == eval_paren(m, None));
    assert(m.after(eval_level9(m)) == end);
    assert(eval_level8(m) == eval_level9(m));
    assert(eval_level7(m) == eval_level8(m));
}

/// A factor that none of `*`, `/`, `%` follows is a term.
#[verifier::spinoff_prover]
pub proof fn lemma_factor_is_term(m: Machine, end: Machine, r: Result<Decimal, Fault>)
    requires
        eval_level7(m) == finish(m, end, r),
        follows(m, end),
        r is Ok ==> !is_multiplicative(end.peek()),
    ensures
        eval_level6(m) == finish(m, end, r),
{
    reveal(eval_level7);
    reveal(eval_level6);
    reveal(eval_level6_rest);
    assert(m.after(eval_level7(m)) == end);
    match r {
        Ok(v) => {
            assert(eval_level6_rest(end, v) == finish(end, end, Ok(v)));
        },
        Err(f) => {},
    }
}

/// A term that neither `+` nor `-` follows is a sum.
#[verifier::spinoff_prover]
pub proof fn lemma_term_is_sum(m: Machine, end: Machine, r: Result<Decimal, Fault>)
    requires
        eval_level6(m) == finish(m, end, r),
        follows(m, end),
        r is Ok ==> !is_additive(end.peek()),
    ensures
        eval_level5(m) == finish(m, end, r),
{
    reveal(eval_level6);
    reveal(eval_level5);
    reveal(eval_level5_rest);
    assert(m.after(eval_level6(m)) == end);
    match r {
        Ok(v) => {
            assert(eval_level5_rest(end, v) == finish(end, end, Ok(v)));
        },
        Err(f) => {},
    }
}

/// A sum behind which the expression may end is a whole expression, at any level that can
/// still be entered.
#[verifier::spinoff_prover]
pub proof fn lemma_sum_is_expression(m: Machine, end: Machine, r: Result<Decimal, Fault>)
    requires
        m.level < MAX_LEVEL,
        eval_level5(m) == finish(m, end, r),
        follows(m, end),
        r is Ok ==> is_closing(end.peek(), m.level),
    ensures
        eval_calculate(m) == finish(m, end, r),
{
    reveal(eval_level5);
    reveal(eval_level4);
    reveal(eval_level4_rest);
    reveal(eval_level3);
    reveal(eval_level2);
    reveal(eval_calculate);
    let o = eval_level5(m);
    assert(m.after(o) == end);
    match r {
        Ok(v) => {
            assert(eval_level4_rest(end, v) == finish(end, end, Ok(v)));
            assert(eval_level4(m) == o);
            assert(eval_level3(m) == o);
            assert(eval_level2(m) == o);
            assert(eval_calculate(m) == o);
        },
        Err(f) => {
            assert(eval_level4(m) == o);
            assert(eval_level3(m) == o);
            assert(eval_level2(m) == o);
            assert(eval_calculate(m) == o);
        },
    }
}

/// A group, call or value that is not behind `~` and behind which the expression may end
/// is a whole expression.
#[verifier::spinoff_prover]
pub proof fn lemma_primary_is_expression(m: Machine, end: Machine, r: Result<Decimal, Fault>)
    requires
        m.level < MAX_LEVEL,
        eval_paren(m, None) == finish(m, end, r),
        follows(m, end),
        m.peek() != Some(Sym::Not),
        r is Ok ==> is_closing(end.peek(), m.level),
    ensures
        eval_calculate(m) == finish(m, end, r),
{
    lemma_primary_is_factor(m, end, r);
    lemma_factor_is_term(m, end, r);
    lemma_term_is_sum(m, end, r);
    lemma_sum_is_expression(m, end, r);
}

/// A single value that no `!` and no `**` follows is a factor.
#[verifier::spinoff_prover]
pub proof fn lemma_value_is_factor(m: Machine, end: Machine, r: Result<Decimal, Fault>)
    requires
        eval_number(m) == finish(m, end, r),
        follows(m, end),
        !is_opening(m.peek()),
        r is Ok ==> !is_postfix(end.peek()),
    ensures
        eval_level7(m) == finish(m, end, r),
{
    reveal(eval_paren);
    assert(eval_paren(m, None) == eval_number(m));
    lemma_primary_is_factor(m, end, r);
}

/// A single value behind which the expression may end is a whole expression.
#[verifier::spinoff_prover]
pub proof fn lemma_value_is_expression(m: Machine, end: Machine, r: Result<Decimal, Fault>)
    requires
        m.level < MAX_LEVEL,
        eval_number(m) == finish(m, end, r),
        follows(m, end),
        !is_opening(m.peek()),
        r is Ok ==> is_closing(end.peek(), m.level),
    ensures
        eval_calculate(m) == finish(m, end, r),
{
    reveal(eval_paren);
    assert(eval_paren(m, None) == eval_number(m));
    lemma_primary_is_expression(m, end, r);
}

/// A literal that no `!` and no `**` follows is a factor, and its value is the literal's.
#[verifier::spinoff_prover]
pub proof fn lemma_literal_is_factor(m: Machine, d: Decimal)
    requires
        m.peek() == Some(Sym::Num(d)),
        !is_postfix(m.skip(1).peek()),
    ensures
        eval_level7(m) == finish(m, m.skip(1), Ok(d)),
{
    reveal(eval_number);
    lemma_value_is_factor(m, m.skip(1), Ok(d));
}

/// A literal that nothing tighter than `+` follows is a term, and its value is the
/// literal's.
#[verifier::spinoff_prover]
pub proof fn lemma_literal_is_term(m: Machine, d: Decimal)
    requires
        m.peek() == Some(Sym::Num(d)),
        !is_postfix(m.skip(1).peek()),
        !is_multiplicative(m.skip(1).peek()),
    ensures
        eval_level6(m) == finish(m, m.skip(1), Ok(d)),
{
    lemma_literal_is_factor(m, d);
    lemma_factor_is_term(m, m.skip(1), Ok(d));
}

/// A literal behind which the expression may end is a whole expression, and its value is
/// the literal's.
#[verifier::spinoff_prover]
pub proof fn lemma_literal_is_expression(m: Machine, d: Decimal)
    requires
        m.level < MAX_LEVEL,
        m.peek() == Some(Sym::Num(d)),
        is_closing(m.skip(1).peek(), m.level),
    ensures
        eval_calculate(m) == finish(m, m.skip(1), Ok(d)),
{
    reveal(eval_number);
    lemma_value_is_expression(m, m.skip(1), Ok(d));
}

/// The three tokens `a op b`, read from the start at the top level, with the given maps.
pub open spec fn binary(
    a: Decimal,
    op: Sym,
    b: Decimal,
    vars: Map<Seq<char>, Decimal>,
    funs: Map<Seq<char>, Seq<Sym>>,
) -> Machine {
    Machine { tokens: seq![Sym::Num(a), op, Sym::Num(b)], pos: 0, level: 0, vars, funs }
}

/// What evaluating the three tokens `a + b` or `a - b` comes to: the operation applied to
/// the two literals, all three tokens read, the maps untouched.
#[verifier::spinoff_prover]
pub proof fn lemma_additive_pair(
    a: Decimal,
    op: Sym,
    b: Decimal,
    vars: Map<Seq<char>, Decimal>,
    funs: Map<Seq<char>, Seq<Sym>>,
)
    requires
        op == Sym::Add || op == Sym::Sub,
    ensures
        evaluate_tokens(seq![Sym::Num(a), op, Sym::Num(b)], vars, funs) == (Outcome {
            result: if op == Sym::Add {
                sum_of(a, b)
            } else {
                difference_of(a, b)
            },
            used: 3,
            vars,
            funs,
        }),
{
    let m = binary(a, op, b, vars, funs);
    let r = if op == Sym::Add {
        sum_of(a, b)
    } else {
        difference_of(a, b)
    };
    assert(m.peek() == Some(Sym::Num(a)));
    assert(m.skip(1).peek() == Some(op));
    assert(m.skip(2).peek() == Some(Sym::Num(b)));
    assert(m.skip(3).peek() is None);
    lemma_literal_is_term(m, a);
    assert(m.skip(2).skip(1) == m.skip(3));
    lemma_literal_is_term(m.skip(2), b);
    reveal(eval_level6);
    reveal(eval_level5);
    reveal(eval_level5_rest);
    let o1 = eval_level6(m);
    assert(m.after(o1) == m.skip(1));
    let o2 = eval_level6(m.skip(2));
    assert(m.skip(1).skip(1) == m.skip(2));
    assert(m.skip(2).after(o2) == m.skip(3));
    match r {
        Ok(v) => {
            assert(eval_level5_rest(m.skip(3), v) == finish(m.skip(3), m.skip(3), Ok(v)));
            assert(eval_level5_rest(m.skip(1), a) == finish(m.skip(1), m.skip(3), r));
        },
        Err(f) => {
            assert(eval_level5_rest(m.skip(1), a) == finish(m.skip(1), m.skip(3), r));
        },
    }
    assert(m.skip(1).after(eval_level5_rest(m.skip(1), a)) == m.skip(3));
    assert(eval_level5(m) == finish(m, m.skip(3), r));
    lemma_sum_is_expression(m, m.skip(3), r);
}

/// What evaluating the three tokens `a * b`, `a / b` or `a % b` comes to.
#[verifier::spinoff_prover]
pub proof fn lemma_multiplicative_pair(
    a: Decimal,
    op: Sym,
    b: Decimal,
    vars: Map<Seq<char>, Decimal>,
    funs: Map<Seq<char>, Seq<Sym>>,
)
    requires
        op == Sym::Mul || op == Sym::Div || op == Sym::Rem,
    ensures
        evaluate_tokens(seq![Sym::Num(a), op, Sym::Num(b)], vars, funs) == (Outcome {
            result: if op == Sym::Mul {
                product_of(a, b)
            } else if op == Sym::Div {
                ratio_of(a, b)
            } else {
                remainder_of(a, b)
            },
            used: 3,
            vars,
            funs,
        }),
{
    let m = binary(a, op, b, vars, funs);
    let r = if op == Sym::Mul {
        product_of(a, b)
    } else if op == Sym::Div {
        ratio_of(a, b)
    } else {
        remainder_of(a, b)
    };
    assert(m.peek() == Some(Sym::Num(a)));
    assert(m.skip(1).peek() == Some(op));
    assert(m.skip(2).peek() == Some(Sym::Num(b)));
    assert(m.skip(3).peek() is None);
    lemma_literal_is_factor(m, a);
    assert(m.skip(2).skip(1) == m.skip(3));
    lemma_literal_is_factor(m.skip(2), b);
    reveal(eval_level7);
    reveal(eval_level6);
    reveal(eval_level6_rest);
    reveal(eval_level5);
    reveal(eval_level5_rest);
    let o1 = eval_level7(m);
    assert(m.after(o1) == m.skip(1));
    let o2 = eval_level7(m.skip(2));
    assert(m.skip(1).skip(1) == m.skip(2));
    assert(m.skip(2).after(o2) == m.skip(3));
    match r {
        Ok(v) => {
            assert(eval_level6_rest(m.skip(3), v) == finish(m.skip(3), m.skip(3), Ok(v)));
            assert(eval_level6_rest(m.skip(1), a) == finish(m.skip(1), m.skip(3), r));
            assert(eval_level5_rest(m.skip(3), v) == finish(m.skip(3), m.skip(3), Ok(v)));
        },
        Err(f) => {
            assert(eval_level6_rest(m.skip(1), a) == finish(m.skip(1), m.skip(3), r));
        },
    }
    assert(m.skip(1).after(eval_level6_rest(m.skip(1), a)) == m.skip(3));
    assert(eval_level6(m) == finish(m, m.skip(3), r));
    assert(m.after(eval_level6(m)) == m.skip(3));
    assert(eval_level5(m) == finish(m, m.skip(3), r));
    lemma_sum_is_expression(m, m.skip(3), r);
}

/// The sum of two integers is exact: evaluating `a + b` yields the integer `a + b`, written
/// at scale 0, whatever the maps hold, and leaves them untouched.
#[verifier::spinoff_prover]
pub proof fn law_integer_sum_is_exact(
    a: int,
    b: int,
    vars: Map<Seq<char>, Decimal>,
    funs: Map<Seq<char>, Seq<Sym>>,
)
    ensures
        evaluate_tokens(
            seq![Sym::Num(Decimal::integer(a)), Sym::Add, Sym::Num(Decimal::integer(b))],
            vars,
            funs,
        ) == (Outcome { result: Ok(Decimal::integer(a + b)), used: 3, vars, funs }),
{
    lemma_additive_pair(Decimal::integer(a), Sym::Add, Decimal::integer(b), vars, funs);
    reveal(sum_of);
    lemma_pow0(10);
    assert(pow10(0) == 1);
    assert(Decimal::integer(a).plus(Decimal::integer(b)) == Decimal::integer(a + b));
}

/// The product of two integers, both written at scale 0, is their product written at
/// scale 0.
#[verifier::spinoff_prover]
pub proof fn lemma_integer_product(a: int, b: int)
    ensures
        Decimal::integer(a).times(Decimal::integer(b)) == Decimal::integer(a * b),
{
    lemma_pow0(10);
    assert(pow10(0) == 1);
    let x = Decimal::integer(a);
    let y = Decimal::integer(b);
    assert(x.plain_one() <==> a == 1);
    assert(y.plain_one() <==> b == 1);
    assert(x.times(y) == Decimal::integer(a * b)) by (nonlinear_arith)
        requires
            x == Decimal::integer(a),
            y == Decimal::integer(b),
            x.plain_one() <==> a == 1,
            y.plain_one() <==> b == 1,
            x.times(y) == if x.plain_one() {
                y
            } else if y.plain_one() {
                x
            } else {
                Decimal { unscaled: a * b, scale: 0 }
            },
    ;
}

/// The product of two integers is exact: evaluating `a * b` yields the integer `a * b`,
/// written at scale 0, whatever the maps hold, and leaves them untouched.
#[verifier::spinoff_prover]
pub proof fn law_integer_product_is_exact(
    a: int,
    b: int,
    vars: Map<Seq<char>, Decimal>,
    funs: Map<Seq<char>, Seq<Sym>>,
)
    ensures
        evaluate_tokens(
            seq![Sym::Num(Decimal::integer(a)), Sym::Mul, Sym::Num(Decimal::integer(b))],
            vars,
            funs,
        ) == (Outcome { result: Ok(Decimal::integer(a * b)), used: 3, vars, funs }),
{
    lemma_multiplicative_pair(Decimal::integer(a), Sym::Mul, Decimal::integer(b), vars, funs);
    reveal(product_of);
    lemma_integer_product(a, b);
}

/// Division and remainder by zero fail: evaluating `a / z` or `a % z` where the value of
/// `z` is zero yields `DivideByZero`, whatever `a` is, and leaves the maps untouched.
#[verifier::spinoff_prover]
pub proof fn law_division_by_zero_fails(
    a: Decimal,
    z: Decimal,
    vars: Map<Seq<char>, Decimal>,
    funs: Map<Seq<char>, Seq<Sym>>,
)
    requires
        z.is_zero(),
    ensures
        evaluate_tokens(seq![Sym::Num(a), Sym::Div, Sym::Num(z)], vars, funs) == (Outcome {
            result: Err(Fault::DivideByZero),
            used: 3,
            vars,
            funs,
        }),
        evaluate_tokens(seq![Sym::Num(a), Sym::Rem, Sym::Num(z)], vars, funs) == (Outcome {
            result: Err(Fault::DivideByZero),
            used: 3,
            vars,
            funs,
        }),
{
    lemma_multiplicative_pair(a, Sym::Div, z, vars, funs);
    lemma_multiplicative_pair(a, Sym::Rem, z, vars, funs);
    reveal(ratio_of);
    reveal(remainder_of);
}

/// A variable persists: evaluating `name = d` yields zero and stores `d` under `name`,
/// leaving everything else as it was; evaluating `name` against the maps so left yields
/// `d`.
#[verifier::spinoff_prover]
pub proof fn law_assignment_persists(
    name: Seq<char>,
    d: Decimal,
    vars: Map<Seq<char>, Decimal>,
    funs: Map<Seq<char>, Seq<Sym>>,
)
    ensures
        evaluate_tokens(seq![Sym::VarAssign(name), Sym::Num(d)], vars, funs) == (Outcome {
            result: Ok(Decimal::integer(0)),
            used: 2,
            vars: vars.insert(name, d),
            funs,
        }),
        evaluate_tokens(seq![Sym::VarGet(name)], vars.insert(name, d), funs) == (Outcome {
            result: Ok(d),
            used: 1,
            vars: vars.insert(name, d),
            funs,
        }),
{
    reveal(eval_number);
    reveal(eval_calculate);
    let m = Machine {
        tokens: seq![Sym::VarAssign(name), Sym::Num(d)],
        pos: 0,
        level: 0,
        vars,
        funs,
    };
    let m1 = m.skip(1);
    assert(m.peek() == Some(Sym::VarAssign(name)));
    assert(m1.peek() == Some(Sym::Num(d)));
    assert(m1.skip(1).peek() is None);
    lemma_value_is_expression(m1, m1.skip(1), Ok(d));
    let o = eval_calculate(m1);
    let end = m1.after(o).with_maps(o.vars.insert(name, d), o.funs);
    assert(eval_number(m) == finish(m, end, Ok(Decimal::integer(0))));
    assert(end.peek() is None);
    lemma_value_is_expression(m, end, Ok(Decimal::integer(0)));
    let g = Machine {
        tokens: seq![Sym::VarGet(name)],
        pos: 0,
        level: 0,
        vars: vars.insert(name, d),
        funs,
    };
    assert(g.peek() == Some(Sym::VarGet(name)));
    assert(g.skip(1).peek() is None);
    lemma_value_is_expression(g, g.skip(1), Ok(d));
}

/// `n!`.
pub open spec fn factorial_value(n: nat) -> int
    decreases n,
{
    if n == 0 {
        1
    } else {
        n * factorial_value((n - 1) as nat)
    }
}

/// An integer written at scale 0 is whole and within range.
#[verifier::spinoff_prover]
pub proof fn lemma_integer_is_whole(n: int)
    ensures
        whole_fault(Decimal::integer(n)) is None,
        Decimal::integer(n).whole_part() == n,
{
    reveal(whole_fault);
    lemma_pow0(10);
    assert(pow10(0) == 1);
}

/// The steps of a factorial on integers: `c * k!`, as long as the count of steps stays
/// below the ceiling.
#[verifier::spinoff_prover]
pub proof fn lemma_factorial_steps(k: nat, c: int, t: nat)
    requires
        t + k < MAX_LEVEL,
    ensures
        factorial_from(Decimal::integer(k as int), Decimal::integer(c), t) == Ok::<
            Decimal,
            Fault,
        >(Decimal::integer(c * factorial_value(k))),
    decreases k,
{
    if k == 0 {
        assert(c * factorial_value(0) == c);
    } else {
        lemma_pow0(10);
        assert(pow10(0) == 1);
        lemma_integer_product(c, k as int);
        assert(Decimal::integer(k as int).minus(Decimal::integer(1)) == Decimal::integer(k - 1));
        lemma_factorial_steps((k - 1) as nat, c * k, t + 1);
        assert((c * k) * factorial_value((k - 1) as nat) == c * factorial_value(k))
            by (nonlinear_arith)
            requires
                factorial_value(k) == k * factorial_value((k - 1) as nat),
        ;
    }
}

/// The steps of a factorial on integers run into the ceiling where there are too many of
/// them.
#[verifier::spinoff_prover]
pub proof fn lemma_factorial_too_deep(k: nat, c: int, t: nat)
    requires
        t + k >= MAX_LEVEL,
    ensures
        factorial_from(Decimal::integer(k as int), Decimal::integer(c), t) == Err::<
            Decimal,
            Fault,
        >(Fault::TooDeep),
    decreases k,
{
    if t < MAX_LEVEL {
        lemma_pow0(10);
        assert(pow10(0) == 1);
        lemma_integer_product(c, k as int);
        assert(Decimal::integer(k as int).minus(Decimal::integer(1)) == Decimal::integer(k - 1));
        lemma_factorial_too_deep((k - 1) as nat, c * k, t + 1);
    }
}

/// The factorial of a natural number below the ceiling of 255 is `n!`, exactly; from 255
/// on it is refused as too deep.
#[verifier::spinoff_prover]
pub proof fn law_factorial_of_integer(n: nat)
    ensures
        n < MAX_LEVEL ==> factorial_of(Decimal::integer(n as int), None, 0) == Ok::<
            Decimal,
            Fault,
        >(Decimal::integer(factorial_value(n))),
        n >= MAX_LEVEL ==> factorial_of(Decimal::integer(n as int), None, 0) == Err::<
            Decimal,
            Fault,
        >(Fault::TooDeep),
{
    reveal(factorial_of);
    reveal(positive_fault);
    lemma_integer_is_whole(n as int);
    if n < MAX_LEVEL {
        lemma_factorial_steps(n, 1, 0);
        assert(1 * factorial_value(n) == factorial_value(n));
    } else {
        lemma_factorial_too_deep(n, 1, 0);
    }
}

/// The steps of a power on integers: `c * x^e`, as long as the exponent has no more bits
/// than steps are left below the ceiling.
#[verifier::spinoff_prover]
pub proof fn lemma_power_steps(x: int, e: nat, c: int, t: nat)
    requires
        t <= MAX_LEVEL,
        e < pow2((MAX_LEVEL - t) as nat),
    ensures
        power_from(Decimal::integer(x), e as int, Decimal::integer(c), t) == Ok::<
            Decimal,
            Fault,
        >(Decimal::integer(c * pow(x, e))),
    decreases e,
{
    lemma2_to64();
    lemma_pow0(x);
    if e == 0 {
        assert(c * pow(x, 0) == c);
    } else {
        assert(t < MAX_LEVEL);
        let left = (MAX_LEVEL - t) as nat;
        lemma_pow2_unfold(left);
        let half = e / 2;
        let taken = if e % 2 != 0 {
            c * x
        } else {
            c
        };
        lemma_integer_product(c, x);
        lemma_integer_product(x, x);
        lemma_pow1(x);
        lemma_square_is_pow2(x);
        lemma_pow_multiplies(x, 2, half);
        lemma_pow_adds(x, 2 * half, (e % 2) as nat);
        assert(pow(x * x, half) == pow(x, 2 * half));
        assert(e == 2 * half + e % 2);
        if half == 0 {
            assert(e == 1);
            assert(c * pow(x, 1) == c * x);
        } else {
            lemma_power_steps(x * x, half, taken, t + 1);
            if e % 2 != 0 {
                assert((c * x) * pow(x, 2 * half) == c * pow(x, e)) by (nonlinear_arith)
                    requires
                        pow(x, e) == pow(x, 2 * half) * x,
                ;
            } else {
                assert(c * pow(x, 2 * half) == c * pow(x, e)) by (nonlinear_arith)
                    requires
                        pow(x, e) == pow(x, 2 * half) * 1,
                ;
            }
        }
    }
}

/// A power of integers is exact: an integer base that is not negative, raised to a natural
/// exponent of at most 255 bits, yields `a^n` written at scale 0.
#[verifier::spinoff_prover]
pub proof fn law_power_of_integers(a: int, n: nat)
    requires
        a >= 0,
        n < pow2(255),
    ensures
        pow_of(Decimal::integer(a), Decimal::integer(n as int), None, 0) == Ok::<Decimal, Fault>(
            Decimal::integer(pow(a, n)),
        ),
{
    reveal(pow_of);
    reveal(positive_fault);
    lemma_integer_is_whole(n as int);
    lemma_pow0(a);
    lemma_pow0(10);
    assert(pow10(0) == 1);
    if n != 0 {
        assert(Decimal::integer(n as int).magnitude() == Decimal::integer(n as int));
        lemma_power_steps(a, n, 1, 0);
        assert(1 * pow(a, n) == pow(a, n));
    }
}

/// Evaluating text whose tokens are `a + b`, or `a * b`, for two integers yields their sum,
/// or their product, exactly.
#[verifier::spinoff_prover]
pub proof fn law_integer_text_is_exact(
    text: Seq<char>,
    a: int,
    b: int,
    vars: Map<Seq<char>, Decimal>,
    funs: Map<Seq<char>, Seq<Sym>>,
)
    ensures
        tokenize(text) == Ok::<Seq<Sym>, ParseFault>(
            seq![Sym::Num(Decimal::integer(a)), Sym::Add, Sym::Num(Decimal::integer(b))],
        ) ==> evaluate_text(text, vars, funs) == (Outcome {
            result: Ok(Decimal::integer(a + b)),
            used: 3,
            vars,
            funs,
        }),
        tokenize(text) == Ok::<Seq<Sym>, ParseFault>(
            seq![Sym::Num(Decimal::integer(a)), Sym::Mul, Sym::Num(Decimal::integer(b))],
        ) ==> evaluate_text(text, vars, funs) == (Outcome {
            result: Ok(Decimal::integer(a * b)),
            used: 3,
            vars,
            funs,
        }),
{
    law_integer_sum_is_exact(a, b, vars, funs);
    law_integer_product_is_exact(a, b, vars, funs);
}

/// Removing the positional names `$1` .. `$n` leaves none of them behind.
#[verifier::spinoff_prover]
pub proof fn lemma_unbound_names_are_gone(vars: Map<Seq<char>, Decimal>, n: nat, i: nat)
    requires
        1 <= i <= n,
    ensures
        !unbind_args(vars, n).contains_key(arg_name(i)),
    decreases n,
{
    if i < n {
        lemma_unbound_names_are_gone(vars, (n - 1) as nat, i);
    }
}

/// A call cleans up after itself: once the function `name` has been called with `args`,
/// none of the positional names under which the arguments were bound is left among the
/// variables, whether the body succeeded or failed.
#[verifier::spinoff_prover]
pub proof fn law_call_removes_positional_names(
    m: Machine,
    name: Seq<char>,
    args: Seq<Decimal>,
    i: nat,
)
    requires
        m.funs.contains_key(name),
        m.level < MAX_LEVEL,
        1 <= i <= args.len(),
    ensures
        !eval_call(m, name, args).vars.contains_key(arg_name(i)),
{
    reveal(eval_call);
    let o = eval_calculate(
        Machine {
            tokens: m.funs[name],
            pos: 0,
            level: m.level + 1,
            vars: bind_args(m.vars, args),
            funs: m.funs,
        },
    );
    lemma_unbound_names_are_gone(o.vars, args.len(), i);
}

/// A definition stores its body without evaluating it: where the tokens are `name = (`
/// followed by a body that ends with the parenthesis closing the first one, evaluating them
/// yields zero, leaves the variables as they are, and stores everything behind the `(`
/// under `name`. (An earlier body under the same name is replaced, as inserting into a map
/// does.)
#[verifier::spinoff_prover]
pub proof fn law_definition_stores_body(
    tokens: Seq<Sym>,
    name: Seq<char>,
    vars: Map<Seq<char>, Decimal>,
    funs: Map<Seq<char>, Seq<Sym>>,
)
    requires
        tokens.len() >= 2,
        tokens[0] == Sym::VarAssign(name),
        tokens[1] == Sym::ParenOpen,
        definition_end(tokens, 2, 1) == Ok::<nat, Fault>(tokens.len()),
    ensures
        evaluate_tokens(tokens, vars, funs) == (Outcome {
            result: Ok(Decimal::integer(0)),
            used: tokens.len(),
            vars,
            funs: funs.insert(name, tokens.subrange(2, tokens.len() as int)),
        }),
{
    reveal(eval_number);
    let m = Machine { tokens, pos: 0, level: 0, vars, funs };
    let end = Machine {
        pos: tokens.len(),
        funs: funs.insert(name, tokens.subrange(2, tokens.len() as int)),
        ..m
    };
    assert(m.peek() == Some(Sym::VarAssign(name)));
    assert(m.skip(1).peek() == Some(Sym::ParenOpen));
    assert(eval_number(m) == finish(m, end, Ok(Decimal::integer(0))));
    assert(end.peek() is None);
    lemma_value_is_expression(m, end, Ok(Decimal::integer(0)));
}

/// A call with one argument, where the argument is a single token whose evaluation yields
/// `v` and touches no map: what the call comes to is the call of the named function with
/// `v`, behind the four tokens `name ( argument )`.
#[verifier::spinoff_prover]
pub proof fn lemma_call_with_one_argument(m: Machine, name: Seq<char>, v: Decimal)
    requires
        m.level < MAX_LEVEL,
        m.peek() == Some(Sym::BlockName(name)),
        m.skip(1).peek() == Some(Sym::ParenOpen),
        m.skip(2).peek() != Some(Sym::ParenClose),
        eval_calculate(m.skip(2).deeper()) == finish(
            m.skip(2).deeper(),
            m.skip(3).deeper(),
            Ok(v),
        ),
        m.skip(3).peek() == Some(Sym::ParenClose),
        name != "abs"@,
        name != "pow"@,
    ensures
        eval_paren(m, None) == finish(
            m,
            m.skip(4).after(eval_call(m.skip(4), name, seq![v])),
            eval_call(m.skip(4), name, seq![v]).result,
        ),
{
    reveal(eval_paren);
    reveal(eval_group);
    reveal(eval_args);
    let m1 = m.skip(1);
    let m2 = m.skip(2);
    let o = eval_calculate(m2.deeper());
    assert(m1.skip(1) == m2);
    assert(m2.deeper().after(o) == m.skip(3).deeper());
    assert(m.skip(3).deeper().peek() == Some(Sym::ParenClose));
    assert(eval_args(m.skip(3).deeper(), seq![v]) == (ArgsOutcome {
        result: Ok(seq![v]),
        used: 0,
        vars: m.vars,
        funs: m.funs,
    }));
    let a = eval_group(m2);
    assert(a == (ArgsOutcome { result: Ok(seq![v]), used: 1, vars: m.vars, funs: m.funs }));
    assert(m2.after_args(a) == m.skip(3));
    assert(m.skip(3).skip(1) == m.skip(4));
    let c = eval_call(m.skip(4), name, seq![v]);
    let inner = eval_paren(m1, Some(name));
    assert(inner == finish(m1, m.skip(4).after(c), c.result));
    assert(m1.after(inner) == m.skip(4).after(c));
}

/// The four tokens `name ( d )`: a call of `name` with the literal `d`.
pub open spec fn call_of(name: Seq<char>, d: Decimal) -> Seq<Sym> {
    seq![Sym::BlockName(name), Sym::ParenOpen, Sym::Num(d), Sym::ParenClose]
}

/// A call evaluates the stored body: calling a function that was defined, other than the
/// built-in `abs` and `pow`, with a literal `d` comes to evaluating the body of the
/// function as a token sequence of its own, one level deep, with `d` bound under `$1`, and
/// then removing `$1` again.
#[verifier::spinoff_prover]
pub proof fn law_call_evaluates_body(
    name: Seq<char>,
    d: Decimal,
    vars: Map<Seq<char>, Decimal>,
    funs: Map<Seq<char>, Seq<Sym>>,
)
    requires
        funs.contains_key(name),
        name != "abs"@,
        name != "pow"@,
    ensures
        ({
            let o = eval_calculate(
                Machine {
                    tokens: funs[name],
                    pos: 0,
                    level: 1,
                    vars: vars.insert(arg_name(1), d),
                    funs,
                },
            );
            evaluate_tokens(call_of(name, d), vars, funs) == (Outcome {
                result: o.result,
                used: 4,
                vars: o.vars.remove(arg_name(1)),
                funs: o.funs,
            })
        }),
{
    let m = Machine { tokens: call_of(name, d), pos: 0, level: 0, vars, funs };
    assert(m.peek() == Some(Sym::BlockName(name)));
    assert(m.skip(1).peek() == Some(Sym::ParenOpen));
    assert(m.skip(2).peek() == Some(Sym::Num(d)));
    assert(m.skip(3).peek() == Some(Sym::ParenClose));
    assert(m.skip(4).peek() is None);
    let arg = m.skip(2).deeper();
    assert(arg.peek() == Some(Sym::Num(d)));
    assert(arg.skip(1) == m.skip(3).deeper());
    assert(arg.skip(1).peek() == Some(Sym::ParenClose));
    lemma_literal_is_expression(arg, d);
    lemma_call_with_one_argument(m, name, d);
    reveal(eval_call);
    let c = eval_call(m.skip(4), name, seq![d]);
    assert(seq![d].drop_last() =~= Seq::<Decimal>::empty());
    assert(bind_args(vars, seq![d]) == vars.insert(arg_name(1), d)) by {
        reveal_with_fuel(bind_args, 2);
    }
    assert(forall|w: Map<Seq<char>, Decimal>| #[trigger]
        unbind_args(w, 1) == w.remove(arg_name(1))) by {
        reveal_with_fuel(unbind_args, 2);
    }
    let end = m.skip(4).after(c);
    assert(end.peek() is None);
    lemma_primary_is_expression(m, end, c.result);
}

/// The body of a function that does nothing but call itself with its own argument:
/// `name ( $1 ) )`, the last parenthesis being the one that closes the definition.
pub open spec fn self_call(name: Seq<char>) -> Seq<Sym> {
    seq![
        Sym::BlockName(name),
        Sym::ParenOpen,
        Sym::VarGet(arg_name(1)),
        Sym::ParenClose,
        Sym::ParenClose,
    ]
}

/// The body of a function that calls itself without end is refused as too deep at whatever
/// level its evaluation starts.
#[verifier::spinoff_prover]
pub proof fn lemma_self_call_is_too_deep(
    name: Seq<char>,
    level: nat,
    vars: Map<Seq<char>, Decimal>,
    funs: Map<Seq<char>, Seq<Sym>>,
)
    requires
        funs.contains_key(name),
        funs[name] == self_call(name),
        name != "abs"@,
        name != "pow"@,
        vars.contains_key(arg_name(1)),
    ensures
        eval_calculate(
            Machine { tokens: self_call(name), pos: 0, level, vars, funs },
        ).result == Err::<Decimal, Fault>(Fault::TooDeep),
    decreases MAX_LEVEL - level,
{
    let m = Machine { tokens: self_call(name), pos: 0, level, vars, funs };
    if level >= MAX_LEVEL {
        reveal(eval_calculate);
    } else {
        assert(m.peek() == Some(Sym::BlockName(name)));
        assert(m.skip(1).peek() == Some(Sym::ParenOpen));
        assert(m.skip(2).peek() == Some(Sym::VarGet(arg_name(1))));
        assert(m.skip(3).peek() == Some(Sym::ParenClose));
        let arg = m.skip(2).deeper();
        if level + 1 >= MAX_LEVEL {
            reveal(eval_calculate);
            reveal(eval_paren);
            reveal(eval_group);
            assert(eval_calculate(arg) == finish(arg, arg, Err(Fault::TooDeep)));
            let m1 = m.skip(1);
            assert(m1.skip(1) == m.skip(2));
            let a = eval_group(m.skip(2));
            assert(a.result == Err::<Seq<Decimal>, Fault>(Fault::TooDeep));
            let inner = eval_paren(m1, Some(name));
            assert(inner.result == Err::<Decimal, Fault>(Fault::TooDeep));
            let end = m1.after(inner);
            assert(eval_paren(m, None) == finish(m, end, Err(Fault::TooDeep)));
            lemma_primary_is_expression(m, end, Err(Fault::TooDeep));
        } else {
            let v = vars[arg_name(1)];
            reveal(eval_number);
            assert(arg.peek() == Some(Sym::VarGet(arg_name(1))));
            assert(arg.skip(1) == m.skip(3).deeper());
            assert(arg.skip(1).peek() == Some(Sym::ParenClose));
            assert(eval_number(arg) == finish(arg, arg.skip(1), Ok(v)));
            lemma_value_is_expression(arg, arg.skip(1), Ok(v));
            lemma_call_with_one_argument(m, name, v);
            reveal(eval_call);
            reveal(eval_calculate);
            let c = eval_call(m.skip(4), name, seq![v]);
            assert(seq![v].drop_last() =~= Seq::<Decimal>::empty());
            assert(bind_args(vars, seq![v]) == vars.insert(arg_name(1), v)) by {
                reveal_with_fuel(bind_args, 2);
            }
            lemma_self_call_is_too_deep(name, level + 1, vars.insert(arg_name(1), v), funs);
            let body = Machine {
                tokens: self_call(name),
                pos: 0,
                level: level + 1,
                vars: vars.insert(arg_name(1), v),
                funs,
            };
            assert(body == (Machine {
                tokens: m.skip(4).funs[name],
                pos: 0,
                level: m.skip(4).level + 1,
                vars: bind_args(m.skip(4).vars, seq![v]),
                funs: m.skip(4).funs,
            }));
            assert(c.result == eval_calculate(body).result);
            let end = m.skip(4).after(c);
            lemma_primary_is_expression(m, end, c.result);
        }
    }
}

/// Endless recursion is stopped: where the function `name` is defined as calling itself
/// with its own argument, a call of it yields `TooDeep`, whatever the argument and the
/// variables are.
#[verifier::spinoff_prover]
pub proof fn law_endless_recursion_is_too_deep(
    name: Seq<char>,
    d: Decimal,
    vars: Map<Seq<char>, Decimal>,
    funs: Map<Seq<char>, Seq<Sym>>,
)
    requires
        funs.contains_key(name),
        funs[name] == self_call(name),
        name != "abs"@,
        name != "pow"@,
    ensures
        evaluate_tokens(call_of(name, d), vars, funs).result == Err::<Decimal, Fault>(
            Fault::TooDeep,
        ),
{
    law_call_evaluates_body(name, d, vars, funs);
    lemma_self_call_is_too_deep(name, 1, vars.insert(arg_name(1), d), funs);
}

} // verus!
