//! Arbitrary-precision decimal numbers.
//!
//! A [`Number`] carries an unscaled integer of any size together with a scale: it stands for
//! `unscaled * 10^(-scale)`. The arithmetic itself is done by the `bigdecimal` and `num` crates;
//! each call into them is made by one small function whose contract is stated over
//! [`Decimal`], the mathematical model of a number. Verus does not look into those functions:
//! their contracts say what the two crates do, as their sources show it. Everything built on
//! top of them is verified.

use bigdecimal::BigDecimal;
use num::BigInt;
use num::Num;
use num::Signed;
use num::ToPrimitive;
use num::Zero;
use std::str::FromStr;
use vstd::arithmetic::power::pow;
use vstd::arithmetic::power2::pow2;
use vstd::prelude::*;

verus! {

/// Largest magnitude of a scale on which the arithmetic is carried out. A number whose scale
/// lies outside `-MAX_SCALE ..= MAX_SCALE` is refused by every operation that has to align,
/// add or subtract scales, so that no scale computation can leave the range of `i64`.
pub const MAX_SCALE: i64 = 0x1_0000_0000;

/// The mathematical content of a [`Number`]: the value `unscaled * 10^(-scale)`, together
/// with the way it is written (the same value can be written at many scales).
pub ghost struct Decimal {
    pub unscaled: int,
    pub scale: int,
}

/// `10^n`.
pub open spec fn pow10(n: nat) -> int {
    pow(10, n)
}

/// Quotient of `a` by `b`, rounded toward zero.
pub open spec fn trunc_div(a: int, b: int) -> int
    recommends
        b != 0,
{
    if b > 0 {
        if a >= 0 {
            a / b
        } else {
            -((-a) / b)
        }
    } else {
        if a >= 0 {
            -(a / (-b))
        } else {
            (-a) / (-b)
        }
    }
}

/// Remainder that goes with [`trunc_div`]: it has the sign of `a`.
pub open spec fn trunc_rem(a: int, b: int) -> int
    recommends
        b != 0,
{
    a - b * trunc_div(a, b)
}

/// What dividing one decimal by another yields, as `(unscaled, scale)`. The quotient is
/// rounded to the precision that the `bigdecimal` crate was built with, so it is named, not
/// defined.
pub uninterp spec fn quotient_of(a_unscaled: int, a_scale: int, b_unscaled: int, b_scale: int) -> (
    int,
    int,
);

/// What a piece of text means as a base-10 literal, as `(unscaled, scale)`, or `None` where
/// it is not one.
pub uninterp spec fn decimal_literal(text: Seq<char>) -> Option<(int, int)>;

/// What a string of digits means as an integer in the given radix, or `None` where it is not
/// one.
pub uninterp spec fn radix_literal(digits: Seq<char>, radix: int) -> Option<int>;

/// How a decimal is written out as text.
pub uninterp spec fn decimal_text(unscaled: int, scale: int) -> Seq<char>;

impl Decimal {
    /// The integer `n`, written at scale 0.
    pub open spec fn integer(n: int) -> Decimal {
        Decimal { unscaled: n, scale: 0 }
    }

    /// Whether the scale lies within `-MAX_SCALE ..= MAX_SCALE`.
    pub open spec fn bounded(self) -> bool {
        -MAX_SCALE <= self.scale <= MAX_SCALE
    }

    /// Whether the value is zero.
    pub open spec fn is_zero(self) -> bool {
        self.unscaled == 0
    }

    /// Whether the value is below zero.
    pub open spec fn is_negative(self) -> bool {
        self.unscaled < 0
    }

    /// The unscaled integer of this value when it is rewritten at the scale `to >= self.scale`.
    pub open spec fn lifted(self, to: int) -> int
        recommends
            to >= self.scale,
    {
        self.unscaled * pow10((to - self.scale) as nat)
    }

    /// Both decimals denote the same value.
    pub open spec fn same_value(self, other: Decimal) -> bool {
        let s = if self.scale >= other.scale { self.scale } else { other.scale };
        self.lifted(s) == other.lifted(s)
    }

    /// The value with the opposite sign, written at the same scale.
    pub open spec fn negated(self) -> Decimal {
        Decimal { unscaled: -self.unscaled, scale: self.scale }
    }

    /// The absolute value, written at the same scale.
    pub open spec fn magnitude(self) -> Decimal {
        if self.unscaled < 0 {
            self.negated()
        } else {
            self
        }
    }

    /// The sum, written at the larger of the two scales.
    pub open spec fn plus(self, other: Decimal) -> Decimal {
        let s = if self.scale >= other.scale { self.scale } else { other.scale };
        Decimal { unscaled: self.lifted(s) + other.lifted(s), scale: s }
    }

    /// The difference. Subtracting zero leaves the left side as it is written; subtracting
    /// from zero negates the right side as it is written; otherwise the result is written at
    /// the larger of the two scales.
    pub open spec fn minus(self, other: Decimal) -> Decimal {
        let s = if self.scale >= other.scale { self.scale } else { other.scale };
        if other.unscaled == 0 {
            self
        } else if self.unscaled == 0 {
            other.negated()
        } else {
            Decimal { unscaled: self.lifted(s) - other.lifted(s), scale: s }
        }
    }

    /// The value is one and it is written with at most 38 fractional digits: the factor that
    /// multiplication recognises and skips.
    pub open spec fn plain_one(self) -> bool {
        0 <= self.scale <= 38 && self.unscaled == pow10(self.scale as nat)
    }

    /// The product. A factor that is a [`plain_one`](Decimal::plain_one) is skipped, so the
    /// other factor comes back as it is written; otherwise the unscaled integers are
    /// multiplied and the scales added.
    pub open spec fn times(self, other: Decimal) -> Decimal {
        if self.plain_one() {
            other
        } else if other.plain_one() {
            self
        } else {
            Decimal { unscaled: self.unscaled * other.unscaled, scale: self.scale + other.scale }
        }
    }

    /// The quotient, as the division of `bigdecimal` rounds and writes it.
    pub open spec fn over(self, other: Decimal) -> Decimal {
        let q = quotient_of(self.unscaled, self.scale, other.unscaled, other.scale);
        Decimal { unscaled: q.0, scale: q.1 }
    }

    /// The integer part (fraction dropped, toward zero), as an integer.
    pub open spec fn whole_part(self) -> int {
        if self.scale <= 0 {
            self.unscaled * pow10((-self.scale) as nat)
        } else {
            trunc_div(self.unscaled, pow10(self.scale as nat))
        }
    }

    /// The integer part, written at scale 0.
    pub open spec fn truncated(self) -> Decimal {
        Decimal::integer(self.whole_part())
    }

    /// The value has no fractional part: rewriting it at scale 0 loses nothing.
    pub open spec fn is_whole(self) -> bool {
        self.truncated().same_value(self)
    }

    /// The sum, where both operands are in range.
    pub open spec fn checked_plus(self, other: Decimal) -> Option<Decimal> {
        if self.bounded() && other.bounded() {
            Some(self.plus(other))
        } else {
            None
        }
    }

    /// The difference, where both operands are in range.
    pub open spec fn checked_minus(self, other: Decimal) -> Option<Decimal> {
        if self.bounded() && other.bounded() {
            Some(self.minus(other))
        } else {
            None
        }
    }

    /// The product, where both operands are in range.
    pub open spec fn checked_times(self, other: Decimal) -> Option<Decimal> {
        if self.bounded() && other.bounded() {
            Some(self.times(other))
        } else {
            None
        }
    }

    /// The quotient, where both operands are in range and the divisor is not zero.
    pub open spec fn checked_over(self, other: Decimal) -> Option<Decimal> {
        if self.bounded() && other.bounded() && other.unscaled != 0 {
            Some(self.over(other))
        } else {
            None
        }
    }

    /// The integer part written at scale 0, where the number is in range.
    pub open spec fn checked_truncated(self) -> Option<Decimal> {
        if self.bounded() {
            Some(self.truncated())
        } else {
            None
        }
    }

    /// Whether the value has no fractional part, where the number is in range.
    pub open spec fn checked_is_whole(self) -> Option<bool> {
        if self.bounded() {
            Some(self.is_whole())
        } else {
            None
        }
    }

    /// The integer part as an `i64`, where the number is in range and the integer part fits.
    pub open spec fn to_i64(self) -> Option<i64> {
        if self.bounded() && i64::MIN <= self.whole_part() <= i64::MAX {
            Some(self.whole_part() as i64)
        } else {
            None
        }
    }

    /// The integer part as a `usize`, where the number is in range, not negative, and the
    /// integer part fits.
    pub open spec fn to_usize(self) -> Option<usize> {
        if self.bounded() && self.unscaled >= 0 && self.whole_part() <= usize::MAX {
            Some(self.whole_part() as usize)
        } else {
            None
        }
    }

    /// Remainder of the integer parts, with the sign of the left side.
    pub open spec fn checked_remainder(self, other: Decimal) -> Option<Decimal> {
        if self.bounded() && other.bounded() && other.whole_part() != 0 {
            Some(Decimal::integer(trunc_rem(self.whole_part(), other.whole_part())))
        } else {
            None
        }
    }

    /// The integer part times `2^k`.
    pub open spec fn checked_shl(self, k: nat) -> Option<Decimal> {
        if self.bounded() {
            Some(Decimal::integer(self.whole_part() * pow2(k)))
        } else {
            None
        }
    }

    /// The integer part divided by `2^k`, rounded down.
    pub open spec fn checked_shr(self, k: nat) -> Option<Decimal> {
        if self.bounded() {
            Some(Decimal::integer(self.whole_part() / (pow2(k) as int)))
        } else {
            None
        }
    }

    /// The number written out as text.
    pub open spec fn text(self) -> Seq<char> {
        decimal_text(self.unscaled, self.scale)
    }
}

/// The integer that a little-endian two's-complement byte string stands for.
pub open spec fn signed_le(bytes: Seq<u8>) -> int
    decreases bytes.len(),
{
    if bytes.len() == 0 {
        0
    } else if bytes.len() == 1 {
        if bytes[0] < 128 {
            bytes[0] as int
        } else {
            bytes[0] as int - 256
        }
    } else {
        bytes[0] as int + 256 * signed_le(bytes.drop_first())
    }
}

/// An arbitrary-precision signed decimal. The unscaled integer is held as little-endian
/// two's-complement bytes, the form in which it is handed to `BigInt::from_signed_bytes_le`
/// and taken back from `BigInt::to_signed_bytes_le`; [`signed_le`] says which integer the
/// bytes stand for. Any bytes are valid, and so is any scale.
#[derive(Clone, Debug, PartialEq, Eq)]
pub struct Number {
    bytes: Vec<u8>,
    scale: i64,
}

impl View for Number {
    type V = Decimal;

    closed spec fn view(&self) -> Decimal {
        Decimal { unscaled: signed_le(self.bytes@), scale: self.scale as int }
    }
}

/// The view of an optional number.
pub open spec fn opt_view(n: Option<Number>) -> Option<Decimal> {
    match n {
        Some(n) => Some(n@),
        None => None,
    }
}

/// `BigDecimal::from(i64)`: the integer itself, at scale 0.
#[verifier::external_body]
fn raw_from_i64(v: i64) -> (r: Number)
    ensures
        r@ == Decimal::integer(v as int),
{
    let (digits, scale) = BigDecimal::from(v).into_bigint_and_scale();
    Number { bytes: digits.to_signed_bytes_le(), scale }
}

/// `<BigDecimal as FromStr>::from_str`: the text read as a base-10 literal. Which texts are
/// literals, and what they mean, is the grammar of `bigdecimal`; it depends on the text
/// alone.
#[verifier::external_body]
fn raw_parse_decimal(text: &str) -> (r: Option<Number>)
    ensures
        match r {
            Some(n) => decimal_literal(text@) == Some((n@.unscaled, n@.scale)),
            None => decimal_literal(text@) is None,
        },
{
    match BigDecimal::from_str(text) {
        Ok(d) => {
            let (digits, scale) = d.into_bigint_and_scale();
            Some(Number { bytes: digits.to_signed_bytes_le(), scale })
        },
        Err(_) => None,
    }
}

/// `<BigInt as Num>::from_str_radix`: the digits read as an integer in the given radix, at
/// scale 0. `from_str_radix` panics on a radix that is not in `2..=36`.
#[verifier::external_body]
fn raw_parse_radix(digits: &str, radix: u32) -> (r: Option<Number>)
    requires
        2 <= radix <= 36,
    ensures
        match r {
            Some(n) => radix_literal(digits@, radix as int) == Some(n@.unscaled) && n@.scale == 0,
            None => radix_literal(digits@, radix as int) is None,
        },
{
    match BigInt::from_str_radix(digits, radix) {
        Ok(i) => Some(Number { bytes: i.to_signed_bytes_le(), scale: 0 }),
        Err(_) => None,
    }
}

/// `<BigDecimal as Zero>::is_zero`: the unscaled integer is zero.
#[verifier::external_body]
fn raw_is_zero(a: &Number) -> (r: bool)
    ensures
        r == a@.is_zero(),
{
    BigDecimal::new(BigInt::from_signed_bytes_le(&a.bytes), a.scale).is_zero()
}

/// `<BigDecimal as Signed>::is_negative`: the unscaled integer is below zero.
#[verifier::external_body]
fn raw_is_negative(a: &Number) -> (r: bool)
    ensures
        r == a@.is_negative(),
{
    BigDecimal::new(BigInt::from_signed_bytes_le(&a.bytes), a.scale).is_negative()
}

/// `<BigDecimal as Neg>::neg`: the unscaled integer changes sign, the scale stays.
#[verifier::external_body]
fn raw_neg(a: &Number) -> (r: Number)
    ensures
        r@ == a@.negated(),
{
    let x = BigDecimal::new(BigInt::from_signed_bytes_le(&a.bytes), a.scale);
    let (digits, scale) = (-x).into_bigint_and_scale();
    Number { bytes: digits.to_signed_bytes_le(), scale }
}

/// `<BigDecimal as Signed>::abs`: a negative number is negated, any other comes back as it
/// is.
#[verifier::external_body]
fn raw_abs(a: &Number) -> (r: Number)
    ensures
        r@ == a@.magnitude(),
{
    let x = BigDecimal::new(BigInt::from_signed_bytes_le(&a.bytes), a.scale);
    let (digits, scale) = Signed::abs(&x).into_bigint_and_scale();
    Number { bytes: digits.to_signed_bytes_le(), scale }
}

/// `<BigDecimal as PartialEq>::eq`: equality of the values, whatever the scales.
#[verifier::external_body]
fn raw_eq(a: &Number, b: &Number) -> (r: bool)
    ensures
        r == a@.same_value(b@),
{
    let x = BigDecimal::new(BigInt::from_signed_bytes_le(&a.bytes), a.scale);
    let y = BigDecimal::new(BigInt::from_signed_bytes_le(&b.bytes), b.scale);
    x == y
}

/// `BigDecimal::with_scale(0)`: the number rewritten at scale 0, which multiplies the
/// unscaled integer by a power of ten where the scale was negative and divides it, rounding
/// toward zero, where the scale was positive. `with_scale` subtracts the scale from
/// zero, so the scale must not be `i64::MIN`.
#[verifier::external_body]
fn raw_truncate(a: &Number) -> (r: Number)
    requires
        a@.bounded(),
    ensures
        r@ == a@.truncated(),
{
    let x = BigDecimal::new(BigInt::from_signed_bytes_le(&a.bytes), a.scale);
    let (digits, scale) = x.with_scale(0).into_bigint_and_scale();
    Number { bytes: digits.to_signed_bytes_le(), scale }
}

/// `<BigDecimal as ToPrimitive>::to_i64`: the integer part, where it fits an `i64`. The
/// conversion takes the difference of the scale and zero and panics where that
/// overflows.
#[verifier::external_body]
fn raw_to_i64(a: &Number) -> (r: Option<i64>)
    requires
        a@.bounded(),
    ensures
        r == a@.to_i64(),
{
    BigDecimal::new(BigInt::from_signed_bytes_le(&a.bytes), a.scale).to_i64()
}

/// `<BigDecimal as ToPrimitive>::to_usize`: nothing for a negative number; otherwise the
/// integer part, where it fits a `usize`. Same demand on the scale as for `to_i64`.
#[verifier::external_body]
fn raw_to_usize(a: &Number) -> (r: Option<usize>)
    requires
        a@.bounded(),
    ensures
        r == a@.to_usize(),
{
    BigDecimal::new(BigInt::from_signed_bytes_le(&a.bytes), a.scale).to_usize()
}

/// `<BigDecimal as Add>::add` on owned values: the exact sum, written at the larger of the
/// two scales. The addition takes the difference of the scales.
#[verifier::external_body]
fn raw_add(a: &Number, b: &Number) -> (r: Number)
    requires
        a@.bounded(),
        b@.bounded(),
    ensures
        r@ == a@.plus(b@),
{
    let x = BigDecimal::new(BigInt::from_signed_bytes_le(&a.bytes), a.scale);
    let y = BigDecimal::new(BigInt::from_signed_bytes_le(&b.bytes), b.scale);
    let (digits, scale) = (x + y).into_bigint_and_scale();
    Number { bytes: digits.to_signed_bytes_le(), scale }
}

/// `<BigDecimal as Sub>::sub` on owned values: the exact difference. A zero on the right
/// leaves the left side untouched, a zero on the left gives the right side negated, and in
/// every other case the result is written at the larger of the two scales.
#[verifier::external_body]
fn raw_sub(a: &Number, b: &Number) -> (r: Number)
    requires
        a@.bounded(),
        b@.bounded(),
    ensures
        r@ == a@.minus(b@),
{
    let x = BigDecimal::new(BigInt::from_signed_bytes_le(&a.bytes), a.scale);
    let y = BigDecimal::new(BigInt::from_signed_bytes_le(&b.bytes), b.scale);
    let (digits, scale) = (x - y).into_bigint_and_scale();
    Number { bytes: digits.to_signed_bytes_le(), scale }
}

/// `<BigDecimal as Mul>::mul` on owned values: the exact product. The multiplication first
/// tests each factor for being one (written with at most 38 fractional digits) and hands
/// back the other factor unchanged; otherwise it multiplies the unscaled integers and adds
/// the scales, which must not overflow.
#[verifier::external_body]
fn raw_mul(a: &Number, b: &Number) -> (r: Number)
    requires
        a@.bounded(),
        b@.bounded(),
    ensures
        r@ == a@.times(b@),
{
    let x = BigDecimal::new(BigInt::from_signed_bytes_le(&a.bytes), a.scale);
    let y = BigDecimal::new(BigInt::from_signed_bytes_le(&b.bytes), b.scale);
    let (digits, scale) = (x * y).into_bigint_and_scale();
    Number { bytes: digits.to_signed_bytes_le(), scale }
}

/// `<BigDecimal as Div>::div` on owned values: the quotient, rounded to the precision the
/// crate was built with. It is determined by how the two operands are written. The
/// division panics on a zero divisor, and subtracts and increments scales.
#[verifier::external_body]
fn raw_div(a: &Number, b: &Number) -> (r: Number)
    requires
        a@.bounded(),
        b@.bounded(),
        b@.unscaled != 0,
    ensures
        (r@.unscaled, r@.scale) == quotient_of(a@.unscaled, a@.scale, b@.unscaled, b@.scale),
{
    let x = BigDecimal::new(BigInt::from_signed_bytes_le(&a.bytes), a.scale);
    let y = BigDecimal::new(BigInt::from_signed_bytes_le(&b.bytes), b.scale);
    let (digits, scale) = (x / y).into_bigint_and_scale();
    Number { bytes: digits.to_signed_bytes_le(), scale }
}

/// `<BigInt as Rem>::rem` on the unscaled integers: the remainder of the division that
/// rounds toward zero, at scale 0. `rem` panics on a zero divisor.
#[verifier::external_body]
fn raw_int_rem(a: &Number, b: &Number) -> (r: Number)
    requires
        b@.unscaled != 0,
    ensures
        r@ == Decimal::integer(trunc_rem(a@.unscaled, b@.unscaled)),
{
    let x = BigInt::from_signed_bytes_le(&a.bytes);
    let y = BigInt::from_signed_bytes_le(&b.bytes);
    Number { bytes: (x % y).to_signed_bytes_le(), scale: 0 }
}

/// `<BigInt as Shl<usize>>::shl` on the unscaled integer: it times `2^k`, at scale 0.
#[verifier::external_body]
fn raw_int_shl(a: &Number, k: usize) -> (r: Number)
    ensures
        r@ == Decimal::integer(a@.unscaled * pow2(k as nat)),
{
    let x = BigInt::from_signed_bytes_le(&a.bytes);
    Number { bytes: (x << k).to_signed_bytes_le(), scale: 0 }
}

/// `<BigInt as Shr<usize>>::shr` on the unscaled integer: it divided by `2^k`, rounded down,
/// at scale 0.
#[verifier::external_body]
fn raw_int_shr(a: &Number, k: usize) -> (r: Number)
    ensures
        r@ == Decimal::integer(a@.unscaled / (pow2(k as nat) as int)),
{
    let x = BigInt::from_signed_bytes_le(&a.bytes);
    Number { bytes: (x >> k).to_signed_bytes_le(), scale: 0 }
}

/// `<BigDecimal as ToString>::to_string`: the number written out. The text depends on how
/// the number is written and on the thresholds for exponent notation that the crate
/// was built with.
#[verifier::external_body]
fn raw_to_text(a: &Number) -> (r: String)
    ensures
        r@ == decimal_text(a@.unscaled, a@.scale),
{
    BigDecimal::new(BigInt::from_signed_bytes_le(&a.bytes), a.scale).to_string()
}

impl Number {
    /// The integer `v`.
    pub fn from_i64(v: i64) -> (r: Number)
        ensures
            r@ == Decimal::integer(v as int),
    {
        raw_from_i64(v)
    }

    /// Reads a base-10 literal.
    pub fn from_decimal_text(text: &str) -> (r: Option<Number>)
        ensures
            match r {
                Some(n) => decimal_literal(text@) == Some((n@.unscaled, n@.scale)),
                None => decimal_literal(text@) is None,
            },
    {
        raw_parse_decimal(text)
    }

    /// Reads an integer written in binary, octal or hexadecimal digits. Any other radix
    /// yields nothing.
    pub fn from_radix_text(digits: &str, radix: u32) -> (r: Option<Number>)
        ensures
            radix != 2 && radix != 8 && radix != 16 ==> r is None,
            radix == 2 || radix == 8 || radix == 16 ==> match r {
                Some(n) => radix_literal(digits@, radix as int) == Some(n@.unscaled) && n@.scale
                    == 0,
                None => radix_literal(digits@, radix as int) is None,
            },
    {
        if radix == 2 || radix == 8 || radix == 16 {
            raw_parse_radix(digits, radix)
        } else {
            None
        }
    }

    /// The number whose unscaled integer is given as little-endian two's-complement bytes.
    pub fn from_parts(bytes: Vec<u8>, scale: i64) -> (r: Number)
        ensures
            r@ == (Decimal { unscaled: signed_le(bytes@), scale: scale as int }),
    {
        Number { bytes, scale }
    }

    /// The unscaled integer as little-endian two's-complement bytes.
    pub fn bytes(&self) -> (r: &Vec<u8>)
        ensures
            signed_le(r@) == self@.unscaled,
    {
        &self.bytes
    }

    /// The scale: the number of digits behind the decimal point.
    pub fn scale(&self) -> (r: i64)
        ensures
            r == self@.scale,
    {
        self.scale
    }

    /// Whether the scale lies within `-MAX_SCALE ..= MAX_SCALE`.
    pub fn in_range(&self) -> (b: bool)
        ensures
            b == self@.bounded(),
    {
        -MAX_SCALE <= self.scale && self.scale <= MAX_SCALE
    }

    /// Whether the value is zero.
    pub fn is_zero(&self) -> (r: bool)
        ensures
            r == self@.is_zero(),
    {
        raw_is_zero(self)
    }

    /// Whether the value is below zero.
    pub fn is_negative(&self) -> (r: bool)
        ensures
            r == self@.is_negative(),
    {
        raw_is_negative(self)
    }

    /// The value with the opposite sign, written at the same scale.
    pub fn negated(&self) -> (r: Number)
        ensures
            r@ == self@.negated(),
    {
        raw_neg(self)
    }

    /// The absolute value, written at the same scale.
    pub fn magnitude(&self) -> (r: Number)
        ensures
            r@ == self@.magnitude(),
    {
        raw_abs(self)
    }

    /// Whether both numbers denote the same value.
    pub fn same_value(&self, other: &Number) -> (r: bool)
        ensures
            r == self@.same_value(other@),
    {
        raw_eq(self, other)
    }

    /// A copy of this number.
    pub fn duplicate(&self) -> (r: Number)
        ensures
            r@ == self@,
    {
        Number { bytes: self.bytes.clone(), scale: self.scale }
    }

    /// The sum, or nothing where an operand is out of range.
    pub fn plus(&self, other: &Number) -> (r: Option<Number>)
        ensures
            opt_view(r) == self@.checked_plus(other@),
    {
        if self.in_range() && other.in_range() {
            Some(raw_add(self, other))
        } else {
            None
        }
    }

    /// The difference, or nothing where an operand is out of range.
    pub fn minus(&self, other: &Number) -> (r: Option<Number>)
        ensures
            opt_view(r) == self@.checked_minus(other@),
    {
        if self.in_range() && other.in_range() {
            Some(raw_sub(self, other))
        } else {
            None
        }
    }

    /// The product, or nothing where an operand is out of range.
    pub fn times(&self, other: &Number) -> (r: Option<Number>)
        ensures
            opt_view(r) == self@.checked_times(other@),
    {
        if self.in_range() && other.in_range() {
            Some(raw_mul(self, other))
        } else {
            None
        }
    }

    /// The quotient, or nothing where an operand is out of range or the divisor is zero.
    pub fn over(&self, other: &Number) -> (r: Option<Number>)
        ensures
            opt_view(r) == self@.checked_over(other@),
    {
        if self.in_range() && other.in_range() && !raw_is_zero(other) {
            Some(raw_div(self, other))
        } else {
            None
        }
    }

    /// The integer part, or nothing where the number is out of range.
    pub fn truncated(&self) -> (r: Option<Number>)
        ensures
            opt_view(r) == self@.checked_truncated(),
    {
        if self.in_range() {
            Some(raw_truncate(self))
        } else {
            None
        }
    }

    /// Whether the number has no fractional part, or nothing where it is out of range.
    pub fn is_whole(&self) -> (r: Option<bool>)
        ensures
            r == self@.checked_is_whole(),
    {
        if self.in_range() {
            let t = raw_truncate(self);
            Some(raw_eq(&t, self))
        } else {
            None
        }
    }

    /// The integer part as an `i64`, where the number is in range and it fits.
    pub fn to_i64(&self) -> (r: Option<i64>)
        ensures
            r == self@.to_i64(),
    {
        if self.in_range() {
            raw_to_i64(self)
        } else {
            None
        }
    }

    /// The integer part as a `usize`, where the number is in range, not negative, and it
    /// fits.
    pub fn to_usize(&self) -> (r: Option<usize>)
        ensures
            r == self@.to_usize(),
    {
        if self.in_range() {
            raw_to_usize(self)
        } else {
            None
        }
    }

    /// The remainder of the integer parts, or nothing where an operand is out of range or
    /// the integer part of the divisor is zero.
    pub fn remainder(&self, other: &Number) -> (r: Option<Number>)
        ensures
            opt_view(r) == self@.checked_remainder(other@),
    {
        if self.in_range() && other.in_range() {
            let a = raw_truncate(self);
            let b = raw_truncate(other);
            if raw_is_zero(&b) {
                None
            } else {
                Some(raw_int_rem(&a, &b))
            }
        } else {
            None
        }
    }

    /// The integer part shifted left by `k` bits, or nothing where the number is out of
    /// range.
    pub fn shifted_left(&self, k: usize) -> (r: Option<Number>)
        ensures
            opt_view(r) == self@.checked_shl(k as nat),
    {
        if self.in_range() {
            let a = raw_truncate(self);
            Some(raw_int_shl(&a, k))
        } else {
            None
        }
    }

    /// The integer part shifted right by `k` bits, or nothing where the number is out of
    /// range.
    pub fn shifted_right(&self, k: usize) -> (r: Option<Number>)
        ensures
            opt_view(r) == self@.checked_shr(k as nat),
    {
        if self.in_range() {
            let a = raw_truncate(self);
            Some(raw_int_shr(&a, k))
        } else {
            None
        }
    }

    /// The number written out as text.
    pub fn to_text(&self) -> (r: String)
        ensures
            r@ == self@.text(),
    {
        raw_to_text(self)
    }
}

} // verus!
