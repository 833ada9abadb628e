//! The lexical units of an expression, and how each is written out in messages.

use crate::number::{Decimal, Number};
use vstd::prelude::*;
use vstd::string::StringExecFns;

verus! {

/// A token.
#[derive(Clone, Debug, PartialEq, Eq)]
pub enum Token {
    /// A name directly followed by `(`: a function call.
    BlockName(String),
    Num(Number),
    ParenClose,
    ParenOpen,
    Separator,
    /// A name directly followed by `=`: the target of an assignment or of a definition.
    VarAssign(String),
    VarGet(String),
    Add,
    And,
    BitshiftLeft,
    BitshiftRight,
    Div,
    Factorial,
    Mul,
    Not,
    Or,
    Pow,
    Rem,
    Sub,
    Xor,
}

/// The mathematical content of a [`Token`].
pub ghost enum Sym {
    BlockName(Seq<char>),
    Num(Decimal),
    ParenClose,
    ParenOpen,
    Separator,
    VarAssign(Seq<char>),
    VarGet(Seq<char>),
    Add,
    And,
    BitshiftLeft,
    BitshiftRight,
    Div,
    Factorial,
    Mul,
    Not,
    Or,
    Pow,
    Rem,
    Sub,
    Xor,
}

impl View for Token {
    type V = Sym;

    open spec fn view(&self) -> Sym {
        match self {
            Token::BlockName(name) => Sym::BlockName(name@),
            Token::Num(num) => Sym::Num(num@),
            Token::ParenClose => Sym::ParenClose,
            Token::ParenOpen => Sym::ParenOpen,
            Token::Separator => Sym::Separator,
            Token::VarAssign(name) => Sym::VarAssign(name@),
            Token::VarGet(name) => Sym::VarGet(name@),
            Token::Add => Sym::Add,
            Token::And => Sym::And,
            Token::BitshiftLeft => Sym::BitshiftLeft,
            Token::BitshiftRight => Sym::BitshiftRight,
            Token::Div => Sym::Div,
            Token::Factorial => Sym::Factorial,
            Token::Mul => Sym::Mul,
            Token::Not => Sym::Not,
            Token::Or => Sym::Or,
            Token::Pow => Sym::Pow,
            Token::Rem => Sym::Rem,
            Token::Sub => Sym::Sub,
            Token::Xor => Sym::Xor,
        }
    }
}

/// The contents of a sequence of tokens.
pub open spec fn syms(tokens: Seq<Token>) -> Seq<Sym> {
    tokens.map_values(|t: Token| t@)
}

/// The contents of a token sequence with one more token.
pub proof fn lemma_syms_push(tokens: Seq<Token>, t: Token)
    ensures
        syms(tokens.push(t)) == syms(tokens).push(t@),
{
    assert(syms(tokens.push(t)) =~= syms(tokens).push(t@));
}

/// No tokens have no contents.
pub proof fn lemma_syms_empty()
    ensures
        syms(Seq::<Token>::empty()) == Seq::<Sym>::empty(),
{
    assert(syms(Seq::<Token>::empty()) =~= Seq::<Sym>::empty());
}

impl Token {
    /// A copy of this token.
    pub fn duplicate(&self) -> (r: Token)
        ensures
            r@ == self@,
    {
        match self {
            Token::BlockName(name) => Token::BlockName(name.clone()),
            Token::Num(num) => Token::Num(num.duplicate()),
            Token::ParenClose => Token::ParenClose,
            Token::ParenOpen => Token::ParenOpen,
            Token::Separator => Token::Separator,
            Token::VarAssign(name) => Token::VarAssign(name.clone()),
            Token::VarGet(name) => Token::VarGet(name.clone()),
            Token::Add => Token::Add,
            Token::And => Token::And,
            Token::BitshiftLeft => Token::BitshiftLeft,
            Token::BitshiftRight => Token::BitshiftRight,
            Token::Div => Token::Div,
            Token::Factorial => Token::Factorial,
            Token::Mul => Token::Mul,
            Token::Not => Token::Not,
            Token::Or => Token::Or,
            Token::Pow => Token::Pow,
            Token::Rem => Token::Rem,
            Token::Sub => Token::Sub,
            Token::Xor => Token::Xor,
        }
    }
}

/// A copy of a sequence of tokens.
pub fn duplicate_tokens(tokens: &Vec<Token>) -> (r: Vec<Token>)
    ensures
        syms(r@) == syms(tokens@),
{
    let mut r: Vec<Token> = Vec::new();
    let mut i: usize = 0;
    while i < tokens.len()
        invariant
            i <= tokens.len(),
            r.len() == i,
            forall|j: int| 0 <= j < i ==> r@[j]@ == tokens@[j]@,
        decreases tokens.len() - i,
    {
        r.push(tokens[i].duplicate());
        i += 1;
    }
    assert(syms(r@) =~= syms(tokens@));
    r
}

/// `text` between double quotes, behind `lead`.
pub open spec fn quoted_text(lead: Seq<char>, text: Seq<char>) -> Seq<char> {
    lead + "\""@ + text + "\""@
}

/// How a token is written out in messages.
pub open spec fn token_text(t: Sym) -> Seq<char> {
    match t {
        Sym::BlockName(name) => quoted_text(Seq::empty(), name),
        Sym::Num(d) => "Number "@ + d.text(),
        Sym::ParenClose => ")"@,
        Sym::ParenOpen => "("@,
        Sym::Separator => ","@,
        Sym::VarAssign(name) => quoted_text("Variable assignment "@, name),
        Sym::VarGet(name) => quoted_text("Variable "@, name),
        Sym::Add => "Plus (+)"@,
        Sym::And => "Bitwise AND (&)"@,
        Sym::BitshiftLeft => "Bitshift left (<<)"@,
        Sym::BitshiftRight => "Bitshift right (>>)"@,
        Sym::Div => "Division symbol (/)"@,
        Sym::Factorial => "Factorial (!)"@,
        Sym::Mul => "Times (*)"@,
        Sym::Not => "Bitwise NOT (~)"@,
        Sym::Or => "Bitwise OR (|)"@,
        Sym::Pow => "Exponential (**)"@,
        Sym::Rem => "Remainder (%)"@,
        Sym::Sub => "Minus (-)"@,
        Sym::Xor => "Bitwise XOR (^)"@,
    }
}

/// Every token has a text, and the text is never empty: a token that stands in a message can
/// be seen there. (That the text depends on nothing but the token is what
/// [`Token::to_text`] guarantees.)
pub proof fn law_token_text_is_not_empty(t: Sym)
    ensures
        token_text(t).len() > 0,
{
    reveal_strlit("\"");
    reveal_strlit("Number ");
    reveal_strlit(")");
    reveal_strlit("(");
    reveal_strlit(",");
    reveal_strlit("Plus (+)");
    reveal_strlit("Bitwise AND (&)");
    reveal_strlit("Bitshift left (<<)");
    reveal_strlit("Bitshift right (>>)");
    reveal_strlit("Division symbol (/)");
    reveal_strlit("Factorial (!)");
    reveal_strlit("Times (*)");
    reveal_strlit("Bitwise NOT (~)");
    reveal_strlit("Bitwise OR (|)");
    reveal_strlit("Exponential (**)");
    reveal_strlit("Remainder (%)");
    reveal_strlit("Minus (-)");
    reveal_strlit("Bitwise XOR (^)");
}

/// `text` between double quotes, behind `lead`.
pub fn quoted(lead: &str, text: &str) -> (r: String)
    ensures
        r@ == quoted_text(lead@, text@),
{
    let mut r = lead.to_owned();
    r.append("\"");
    r.append(text);
    r.append("\"");
    r
}

impl Token {
    /// The token as it is written out in messages.
    pub fn to_text(&self) -> (r: String)
        ensures
            r@ == token_text(self@),
    {
        match self {
            Token::BlockName(name) => {
                proof {
                    reveal_strlit("");
                    assert(""@ =~= Seq::<char>::empty());
                }
                quoted("", name.as_str())
            },
            Token::Num(num) => {
                let mut r = "Number ".to_owned();
                r.append(num.to_text().as_str());
                r
            },
            Token::ParenClose => ")".to_owned(),
            Token::ParenOpen => "(".to_owned(),
            Token::Separator => ",".to_owned(),
            Token::VarAssign(name) => quoted("Variable assignment ", name.as_str()),
            Token::VarGet(name) => quoted("Variable ", name.as_str()),
            Token::Add => "Plus (+)".to_owned(),
            Token::And => "Bitwise AND (&)".to_owned(),
            Token::BitshiftLeft => "Bitshift left (<<)".to_owned(),
            Token::BitshiftRight => "Bitshift right (>>)".to_owned(),
            Token::Div => "Division symbol (/)".to_owned(),
            Token::Factorial => "Factorial (!)".to_owned(),
            Token::Mul => "Times (*)".to_owned(),
            Token::Not => "Bitwise NOT (~)".to_owned(),
            Token::Or => "Bitwise OR (|)".to_owned(),
            Token::Pow => "Exponential (**)".to_owned(),
            Token::Rem => "Remainder (%)".to_owned(),
            Token::Sub => "Minus (-)".to_owned(),
            Token::Xor => "Bitwise XOR (^)".to_owned(),
        }
    }
}

} // verus!
