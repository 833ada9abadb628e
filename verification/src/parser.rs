//! The tokenizer: one pass over the characters of an expression, left to right, with a
//! buffer that collects the literal or name being read.

use crate::number::{decimal_literal, radix_literal, Decimal, Number};
use crate::token::{lemma_syms_empty, lemma_syms_push, quoted, quoted_text, syms, Sym, Token};
use vstd::prelude::*;
use vstd::string::StringExecFns;

verus! {

/// An error when parsing
#[derive(Clone, Debug, PartialEq, Eq)]
pub enum ParseError {
    DisallowedChar(char),
    DisallowedDecimal,
    DisallowedVariable(String),
    UnclosedBitShift(char),
}

/// The mathematical content of a [`ParseError`].
pub ghost enum ParseFault {
    DisallowedChar(char),
    DisallowedDecimal,
    DisallowedVariable(Seq<char>),
    UnclosedBitShift(char),
}

impl View for ParseError {
    type V = ParseFault;

    open spec fn view(&self) -> ParseFault {
        match self {
            ParseError::DisallowedChar(c) => ParseFault::DisallowedChar(*c),
            ParseError::DisallowedDecimal => ParseFault::DisallowedDecimal,
            ParseError::DisallowedVariable(name) => ParseFault::DisallowedVariable(name@),
            ParseError::UnclosedBitShift(c) => ParseFault::UnclosedBitShift(*c),
        }
    }
}

/// The message of a parse error.
pub open spec fn parse_fault_text(f: ParseFault) -> Seq<char> {
    match f {
        ParseFault::DisallowedChar(c) => "Character '"@.push(c)
            + "' neither a number nor a valid letter in a function or variable name."@,
        ParseFault::DisallowedDecimal => "You may only use whole numbers in this context"@,
        ParseFault::DisallowedVariable(name) => quoted_text(Seq::empty(), name)
            + " is not a valid variable name."@,
        ParseFault::UnclosedBitShift(c) => "Character '"@.push(c)
            + "' isn't followed by another '"@.push(c)
            + "'.\nLooks like a failed attempt to bitshift."@,
    }
}

/// What kind of parse error it is, in a few words.
pub open spec fn parse_fault_description(f: ParseFault) -> Seq<char> {
    match f {
        ParseFault::DisallowedChar(_) => "A character you used was not allowed"@,
        ParseFault::DisallowedDecimal => "You may only use whole numbers in this context"@,
        ParseFault::DisallowedVariable(_) => "Not a valid variable name."@,
        ParseFault::UnclosedBitShift(_) =>
            "A < or > wasn't followed by another one, which is the way to bitshift"@,
    }
}

impl ParseError {
    /// The message of this error.
    pub fn to_text(&self) -> (r: String)
        ensures
            r@ == parse_fault_text(self@),
    {
        match self {
            ParseError::DisallowedChar(c) => {
                let mut r = "Character '".to_owned();
                r.push(*c);
                r.append("' neither a number nor a valid letter in a function or variable name.");
                r
            },
            ParseError::DisallowedDecimal => {
                "You may only use whole numbers in this context".to_owned()
            },
            ParseError::DisallowedVariable(name) => {
                proof {
                    reveal_strlit("");
                    assert(""@ =~= Seq::<char>::empty());
                }
                let mut r = quoted("", name.as_str());
                r.append(" is not a valid variable name.");
                r
            },
            ParseError::UnclosedBitShift(c) => {
                let mut r = "Character '".to_owned();
                r.push(*c);
                r.append("' isn't followed by another '");
                r.push(*c);
                r.append("'.\nLooks like a failed attempt to bitshift.");
                r
            },
        }
    }

    /// What kind of error it is, in a few words.
    pub fn description(&self) -> (r: &'static str)
        ensures
            r@ == parse_fault_description(self@),
    {
        match self {
            ParseError::DisallowedChar(_) => "A character you used was not allowed",
            ParseError::DisallowedDecimal => "You may only use whole numbers in this context",
            ParseError::DisallowedVariable(_) => "Not a valid variable name.",
            ParseError::UnclosedBitShift(_) =>
                "A < or > wasn't followed by another one, which is the way to bitshift",
        }
    }
}

/// `String::push` appends one character.
pub assume_specification[ String::push ](s: &mut String, c: char)
    ensures
        final(s)@ == old(s)@.push(c),
;

/// Characters that separate tokens and are otherwise ignored.
pub open spec fn is_space(c: char) -> bool {
    c == ' ' || c == '\t' || c == '\n' || c == '\r'
}

/// Letters, digits, `_` and `$`: what a name is made of.
pub open spec fn is_name_char(c: char) -> bool {
    ('a' <= c <= 'z') || ('A' <= c <= 'Z') || ('0' <= c <= '9') || c == '_' || c == '$'
}

/// Whether `c` is a digit of the given radix (2, 8, 10 or 16).
pub open spec fn is_digit_in(c: char, radix: int) -> bool {
    if radix == 16 {
        ('0' <= c <= '9') || ('a' <= c <= 'f') || ('A' <= c <= 'F')
    } else if radix == 10 {
        '0' <= c <= '9'
    } else if radix == 8 {
        '0' <= c <= '7'
    } else {
        '0' <= c <= '1'
    }
}

/// The radix that the first two characters announce: `0x`, `0o`, `0b`, or else 10.
pub open spec fn radix_of(text: Seq<char>) -> int {
    if text.len() >= 2 && text[0] == '0' && text[1] == 'x' {
        16
    } else if text.len() >= 2 && text[0] == '0' && text[1] == 'o' {
        8
    } else if text.len() >= 2 && text[0] == '0' && text[1] == 'b' {
        2
    } else {
        10
    }
}

/// The digits of a literal: what follows the radix prefix, or all of it in base 10.
pub open spec fn digits_of(text: Seq<char>) -> Seq<char> {
    if radix_of(text) == 10 {
        text
    } else {
        text.skip(2)
    }
}

/// Whether the text has the shape of a number: at least one digit position, every one a
/// digit of the announced radix; in base 10 a `.` may stand in any position.
pub open spec fn is_num_text(text: Seq<char>) -> bool {
    let radix = radix_of(text);
    let digits = digits_of(text);
    digits.len() > 0 && forall|i: int|
        0 <= i < digits.len() ==> is_digit_in(#[trigger] digits[i], radix) || (radix == 10
            && digits[i] == '.')
}

/// Whether the text is exactly one of the radix prefixes `0x`, `0o`, `0b`.
pub open spec fn is_num_prefix_text(text: Seq<char>) -> bool {
    text.len() == 2 && text[0] == '0' && (text[1] == 'x' || text[1] == 'o' || text[1] == 'b')
}

/// The number that a buffer denotes, if any: after a radix prefix an integer in that radix,
/// otherwise a base-10 literal.
pub open spec fn literal_of(text: Seq<char>) -> Option<Decimal> {
    if radix_of(text) == 10 {
        match decimal_literal(text) {
            Some(parts) => Some(Decimal { unscaled: parts.0, scale: parts.1 }),
            None => None,
        }
    } else {
        match radix_literal(text.skip(2), radix_of(text)) {
            Some(n) => Some(Decimal::integer(n)),
            None => None,
        }
    }
}

/// The token of an operator or punctuation mark that is one character long.
pub open spec fn simple_sym(c: char) -> Option<Sym> {
    if c == ',' {
        Some(Sym::Separator)
    } else if c == ')' {
        Some(Sym::ParenClose)
    } else if c == '+' {
        Some(Sym::Add)
    } else if c == '-' {
        Some(Sym::Sub)
    } else if c == '/' {
        Some(Sym::Div)
    } else if c == '%' {
        Some(Sym::Rem)
    } else if c == '&' {
        Some(Sym::And)
    } else if c == '|' {
        Some(Sym::Or)
    } else if c == '^' {
        Some(Sym::Xor)
    } else if c == '~' {
        Some(Sym::Not)
    } else if c == '!' {
        Some(Sym::Factorial)
    } else {
        None
    }
}

/// The output after the buffer has been emitted: nothing for an empty buffer, a number where
/// the buffer denotes one, otherwise a variable read, with a multiplication put in front of
/// it where it follows a number.
pub open spec fn flushed(out: Seq<Sym>, buf: Seq<char>) -> Seq<Sym> {
    if buf.len() == 0 {
        out
    } else {
        match literal_of(buf) {
            Some(d) => out.push(Sym::Num(d)),
            None => if out.len() > 0 && out.last() is Num {
                out.push(Sym::Mul).push(Sym::VarGet(buf))
            } else {
                out.push(Sym::VarGet(buf))
            },
        }
    }
}

/// The output after an opening parenthesis: a number in the buffer is emitted and multiplied
/// with the group, a name in the buffer becomes the name of the call.
pub open spec fn opened(out: Seq<Sym>, buf: Seq<char>) -> Seq<Sym> {
    if buf.len() == 0 {
        out.push(Sym::ParenOpen)
    } else {
        match literal_of(buf) {
            Some(d) => out.push(Sym::Num(d)).push(Sym::Mul).push(Sym::ParenOpen),
            None => out.push(Sym::BlockName(buf)).push(Sym::ParenOpen),
        }
    }
}

/// Where a name may not be assigned to: it is empty, has the shape of a number, or starts
/// with `$`, the mark of the positional arguments of a call.
pub open spec fn is_disallowed_target(name: Seq<char>) -> bool {
    name.len() == 0 || is_num_text(name) || name[0] == '$'
}

/// The tokens of `text` from position `i` on, given the output so far and the buffer.
pub open spec fn scan(text: Seq<char>, i: int, out: Seq<Sym>, buf: Seq<char>) -> Result<
    Seq<Sym>,
    ParseFault,
>
    decreases text.len() - i,
{
    if i < 0 || i >= text.len() {
        Ok(flushed(out, buf))
    } else {
        let c = text[i];
        let none = Seq::<char>::empty();
        if is_space(c) {
            scan(text, i + 1, out, buf)
        } else if c == '*' {
            if i + 1 < text.len() && text[i + 1] == '*' {
                scan(text, i + 2, flushed(out, buf).push(Sym::Pow), none)
            } else {
                scan(text, i + 1, flushed(out, buf).push(Sym::Mul), none)
            }
        } else if c == '<' {
            if i + 1 < text.len() && text[i + 1] == '<' {
                scan(text, i + 2, flushed(out, buf).push(Sym::BitshiftLeft), none)
            } else {
                Err(ParseFault::UnclosedBitShift('<'))
            }
        } else if c == '>' {
            if i + 1 < text.len() && text[i + 1] == '>' {
                scan(text, i + 2, flushed(out, buf).push(Sym::BitshiftRight), none)
            } else {
                Err(ParseFault::UnclosedBitShift('>'))
            }
        } else if simple_sym(c) is Some {
            scan(text, i + 1, flushed(out, buf).push(simple_sym(c)->0), none)
        } else if c == '(' {
            scan(text, i + 1, opened(out, buf), none)
        } else if c == '=' {
            if is_disallowed_target(buf) {
                Err(ParseFault::DisallowedVariable(buf))
            } else {
                scan(text, i + 1, out.push(Sym::VarAssign(buf)), none)
            }
        } else if is_num_text(buf.push(c)) || is_name_char(c) {
            if is_num_text(buf) && !is_num_text(buf.push(c)) && !is_num_prefix_text(buf.push(c)) {
                scan(text, i + 1, flushed(out, buf), seq![c])
            } else {
                scan(text, i + 1, out, buf.push(c))
            }
        } else if c == '.' {
            Err(ParseFault::DisallowedDecimal)
        } else {
            Err(ParseFault::DisallowedChar(c))
        }
    }
}

/// The tokens of an expression.
pub open spec fn tokenize(text: Seq<char>) -> Result<Seq<Sym>, ParseFault> {
    scan(text, 0, Seq::empty(), Seq::empty())
}

/// The characters of a string.
pub fn chars_of(text: &str) -> (v: Vec<char>)
    ensures
        v@ == text@,
{
    let mut v: Vec<char> = Vec::new();
    for c in it: text.chars()
        invariant
            v@ == it.seq().take(it.index() as int),
            it.seq() == text@,
    {
        v.push(c);
    }
    v
}

/// The string made of the characters of `chars` from position `from` on.
fn string_of(chars: &Vec<char>, from: usize) -> (s: String)
    requires
        from <= chars.len(),
    ensures
        s@ == chars@.skip(from as int),
{
    let mut s = String::new();
    let mut i: usize = from;
    while i < chars.len()
        invariant
            from <= i <= chars.len(),
            s@ == chars@.subrange(from as int, i as int),
        decreases chars.len() - i,
    {
        s.push(chars[i]);
        assert(chars@.subrange(from as int, i as int).push(chars@[i as int])
            =~= chars@.subrange(from as int, i + 1));
        i += 1;
    }
    assert(chars@.subrange(from as int, i as int) =~= chars@.skip(from as int));
    s
}

fn is_digit(c: char, radix: u32) -> (r: bool)
    ensures
        r == is_digit_in(c, radix as int),
{
    if radix == 16 {
        ('0' <= c && c <= '9') || ('a' <= c && c <= 'f') || ('A' <= c && c <= 'F')
    } else if radix == 10 {
        '0' <= c && c <= '9'
    } else if radix == 8 {
        '0' <= c && c <= '7'
    } else {
        '0' <= c && c <= '1'
    }
}

fn radix(text: &Vec<char>) -> (r: u32)
    ensures
        r as int == radix_of(text@),
        r == 2 || r == 8 || r == 10 || r == 16,
{
    if text.len() >= 2 && text[0] == '0' {
        if text[1] == 'x' {
            16
        } else if text[1] == 'o' {
            8
        } else if text[1] == 'b' {
            2
        } else {
            10
        }
    } else {
        10
    }
}

/// Whether the characters have the shape of a number.
pub fn is_num(text: &Vec<char>) -> (r: bool)
    ensures
        r == is_num_text(text@),
{
    let radix = radix(text);
    let start: usize = if radix == 10 { 0 } else { 2 };
    if start >= text.len() {
        return false;
    }
    let ghost digits = digits_of(text@);
    let mut i: usize = start;
    while i < text.len()
        invariant
            start <= i <= text.len(),
            digits == digits_of(text@),
            radix as int == radix_of(text@),
            start == (if radix == 10 { 0usize } else { 2usize }),
            forall|j: int|
                0 <= j < i - start ==> is_digit_in(#[trigger] digits[j], radix as int) || (radix
                    == 10 && digits[j] == '.'),
        decreases text.len() - i,
    {
        let c = text[i];
        assert(digits[i - start] == c);
        if !(is_digit(c, radix) || (radix == 10 && c == '.')) {
            return false;
        }
        i += 1;
    }
    true
}

/// Whether the text is exactly one of the radix prefixes `0x`, `0o`, `0b`.
pub fn is_num_prefix(prefix: &str) -> (r: bool)
    ensures
        r == is_num_prefix_text(prefix@),
{
    let chars = chars_of(prefix);
    is_prefix(&chars)
}

fn is_prefix(text: &Vec<char>) -> (r: bool)
    ensures
        r == is_num_prefix_text(text@),
{
    text.len() == 2 && text[0] == '0' && (text[1] == 'x' || text[1] == 'o' || text[1] == 'b')
}

/// The number that the characters denote, if any.
pub fn parse_num(text: &Vec<char>) -> (r: Option<Number>)
    ensures
        match r {
            Some(n) => literal_of(text@) == Some(n@),
            None => literal_of(text@) is None,
        },
{
    let radix = radix(text);
    if radix == 10 {
        let s = string_of(text, 0);
        assert(text@.skip(0) =~= text@);
        Number::from_decimal_text(s.as_str())
    } else {
        let s = string_of(text, 2);
        Number::from_radix_text(s.as_str(), radix)
    }
}

fn is_number_token(t: &Token) -> (r: bool)
    ensures
        r == (t@ is Num),
{
    match t {
        Token::Num(_) => true,
        _ => false,
    }
}

fn is_name(c: char) -> (r: bool)
    ensures
        r == is_name_char(c),
{
    ('a' <= c && c <= 'z') || ('A' <= c && c <= 'Z') || ('0' <= c && c <= '9') || c == '_' || c
        == '$'
}

fn simple_token(c: char) -> (r: Option<Token>)
    ensures
        match r {
            Some(t) => simple_sym(c) == Some(t@),
            None => simple_sym(c) is None,
        },
{
    if c == ',' {
        Some(Token::Separator)
    } else if c == ')' {
        Some(Token::ParenClose)
    } else if c == '+' {
        Some(Token::Add)
    } else if c == '-' {
        Some(Token::Sub)
    } else if c == '/' {
        Some(Token::Div)
    } else if c == '%' {
        Some(Token::Rem)
    } else if c == '&' {
        Some(Token::And)
    } else if c == '|' {
        Some(Token::Or)
    } else if c == '^' {
        Some(Token::Xor)
    } else if c == '~' {
        Some(Token::Not)
    } else if c == '!' {
        Some(Token::Factorial)
    } else {
        None
    }
}

fn push_token(output: &mut Vec<Token>, token: Token)
    ensures
        final(output)@ == old(output)@.push(token),
        syms(final(output)@) == syms(old(output)@).push(token@),
{
    proof {
        lemma_syms_push(output@, token);
    }
    output.push(token);
}

/// Emits the buffer and empties it.
fn flush(output: &mut Vec<Token>, buffer: &mut Vec<char>)
    ensures
        syms(final(output)@) == flushed(syms(old(output)@), old(buffer)@),
        final(buffer)@ == Seq::<char>::empty(),
{
    if buffer.len() > 0 {
        match parse_num(buffer) {
            Some(num) => {
                push_token(output, Token::Num(num));
            },
            None => {
                if output.len() > 0 && is_number_token(&output[output.len() - 1]) {
                    push_token(output, Token::Mul);
                }
                assert(buffer@.skip(0) =~= buffer@);
                push_token(output, Token::VarGet(string_of(buffer, 0)));
            },
        }
        buffer.clear();
    }
}

/// Emits the buffer in front of an opening parenthesis, then the parenthesis, and empties
/// the buffer.
fn open_group(output: &mut Vec<Token>, buffer: &mut Vec<char>)
    ensures
        syms(final(output)@) == opened(syms(old(output)@), old(buffer)@),
        final(buffer)@ == Seq::<char>::empty(),
{
    if buffer.len() > 0 {
        match parse_num(buffer) {
            Some(num) => {
                push_token(output, Token::Num(num));
                push_token(output, Token::Mul);
            },
            None => {
                assert(buffer@.skip(0) =~= buffer@);
                push_token(output, Token::BlockName(string_of(buffer, 0)));
            },
        }
        buffer.clear();
    }
    push_token(output, Token::ParenOpen);
}

/// "Parse" the string into a list of tokens.
#[verifier::spinoff_prover]
pub fn parse(input: &str) -> (r: Result<Vec<Token>, ParseError>)
    ensures
        match r {
            Ok(tokens) => tokenize(input@) == Ok::<Seq<Sym>, ParseFault>(syms(tokens@)),
            Err(e) => tokenize(input@) == Err::<Seq<Sym>, ParseFault>(e@),
        },
{
    let text = chars_of(input);
    let mut output: Vec<Token> = Vec::new();
    let mut buffer: Vec<char> = Vec::new();
    let mut i: usize = 0;
    proof {
        lemma_syms_empty();
    }
    while i < text.len()
        invariant
            i <= text.len(),
            text@ == input@,
            scan(text@, i as int, syms(output@), buffer@) == tokenize(input@),
        decreases text.len() - i,
    {
        let c = text[i];
        let ghost held = buffer@;
        if c == ' ' || c == '\t' || c == '\n' || c == '\r' {
            i += 1;
        } else if c == '*' {
            flush(&mut output, &mut buffer);
            if i + 1 < text.len() && text[i + 1] == '*' {
                push_token(&mut output, Token::Pow);
                i += 2;
            } else {
                push_token(&mut output, Token::Mul);
                i += 1;
            }
        } else if c == '<' {
            if i + 1 < text.len() && text[i + 1] == '<' {
                flush(&mut output, &mut buffer);
                push_token(&mut output, Token::BitshiftLeft);
                i += 2;
            } else {
                return Err(ParseError::UnclosedBitShift('<'));
            }
        } else if c == '>' {
            if i + 1 < text.len() && text[i + 1] == '>' {
                flush(&mut output, &mut buffer);
                push_token(&mut output, Token::BitshiftRight);
                i += 2;
            } else {
                return Err(ParseError::UnclosedBitShift('>'));
            }
        } else if c == '(' {
            open_group(&mut output, &mut buffer);
            i += 1;
        } else if c == '=' {
            if buffer.len() == 0 || is_num(&buffer) || buffer[0] == '$' {
                assert(buffer@.skip(0) =~= buffer@);
                return Err(ParseError::DisallowedVariable(string_of(&buffer, 0)));
            }
            assert(buffer@.skip(0) =~= buffer@);
            push_token(&mut output, Token::VarAssign(string_of(&buffer, 0)));
            buffer.clear();
            i += 1;
        } else {
            match simple_token(c) {
                Some(token) => {
                    flush(&mut output, &mut buffer);
                    push_token(&mut output, token);
                    i += 1;
                },
                None => {
                    let was_num = is_num(&buffer);
                    buffer.push(c);
                    let num = is_num(&buffer);
                    if num || is_name(c) {
                        if was_num && !num && !is_prefix(&buffer) {
                            buffer.pop();
                            assert(buffer@ =~= held);
                            flush(&mut output, &mut buffer);
                            buffer.push(c);
                            assert(buffer@ =~= seq![c]);
                        }
                        i += 1;
                    } else if c == '.' {
                        return Err(ParseError::DisallowedDecimal);
                    } else {
                        return Err(ParseError::DisallowedChar(c));
                    }
                },
            }
        }
    }
    flush(&mut output, &mut buffer);
    Ok(output)
}

} // verus!
