//! The tokens that the parser consumes, and their mathematical views.

use vstd::prelude::*;
use vstd::std_specs::cmp::PartialEqSpecImpl;

verus! {

/// A reserved word.
#[derive(Debug, Clone, Copy, PartialEq, Eq, Structural)]
pub enum Keyword {
    Int,
    Return,
}

/// A literal as the tokenizer found it.
#[derive(Debug, Clone, Copy, PartialEq, Eq, Structural)]
pub enum Literal {
    /// An integer literal.
    Int(u32),
    /// A literal without a value; it stands for any literal in a list of expected tokens.
    Empty,
}

/// One token of the source text.
#[derive(Debug)]
pub enum Token {
    Keyword(Keyword),
    Identifier(String),
    Literal(Literal),
    /// `(`
    OpenParenthesis,
    /// `)`
    CloseParenthesis,
    /// `{`
    OpenBrace,
    /// `}`
    CloseBrace,
    /// `;`
    Semicolon,
    /// `-`, unary or binary
    Negative,
    /// `!`
    Negation,
    /// `~`
    Complement,
    /// `+`
    Addition,
    /// `*`
    Multiplication,
    /// `/`
    Division,
    /// `%`
    Modulo,
    /// `&`
    BitAnd,
    /// `|`
    BitOr,
    /// `^`
    BitXor,
    /// `<<`
    ShiftLeft,
    /// `>>`
    ShiftRight,
    /// `<`
    LessThan,
    /// `<=`
    LessThanEqual,
    /// `>`
    GreaterThan,
    /// `>=`
    GreaterThanEqual,
    /// `==`
    Equal,
    /// `!=`
    NotEqual,
    /// `&&`
    And,
    /// `||`
    Or,
    /// `=`
    Assign,
    /// `+=`
    AssignAdd,
    /// `-=`
    AssignSub,
    /// `*=`
    AssignMul,
    /// `/=`
    AssignDiv,
    /// `%=`
    AssignMod,
    /// `&=`
    AssignAnd,
    /// `|=`
    AssignOr,
    /// `^=`
    AssignXor,
    /// `<<=`
    AssignShiftLeft,
    /// `>>=`
    AssignShiftRight,
}

/// The view of a [`Token`]: the same token with its identifier as a sequence of characters.
pub enum SpecToken {
    Keyword(Keyword),
    Identifier(Seq<char>),
    Literal(Literal),
    OpenParenthesis,
    CloseParenthesis,
    OpenBrace,
    CloseBrace,
    Semicolon,
    Negative,
    Negation,
    Complement,
    Addition,
    Multiplication,
    Division,
    Modulo,
    BitAnd,
    BitOr,
    BitXor,
    ShiftLeft,
    ShiftRight,
    LessThan,
    LessThanEqual,
    GreaterThan,
    GreaterThanEqual,
    Equal,
    NotEqual,
    And,
    Or,
    Assign,
    AssignAdd,
    AssignSub,
    AssignMul,
    AssignDiv,
    AssignMod,
    AssignAnd,
    AssignOr,
    AssignXor,
    AssignShiftLeft,
    AssignShiftRight,
}

impl View for Token {
    type V = SpecToken;

    open spec fn view(&self) -> SpecToken {
        match *self {
            Token::Keyword(k) => SpecToken::Keyword(k),
            Token::Identifier(s) => SpecToken::Identifier(s@),
            Token::Literal(l) => SpecToken::Literal(l),
            Token::OpenParenthesis => SpecToken::OpenParenthesis,
            Token::CloseParenthesis => SpecToken::CloseParenthesis,
            Token::OpenBrace => SpecToken::OpenBrace,
            Token::CloseBrace => SpecToken::CloseBrace,
            Token::Semicolon => SpecToken::Semicolon,
            Token::Negative => SpecToken::Negative,
            Token::Negation => SpecToken::Negation,
            Token::Complement => SpecToken::Complement,
            Token::Addition => SpecToken::Addition,
            Token::Multiplication => SpecToken::Multiplication,
            Token::Division => SpecToken::Division,
            Token::Modulo => SpecToken::Modulo,
            Token::BitAnd => SpecToken::BitAnd,
            Token::BitOr => SpecToken::BitOr,
            Token::BitXor => SpecToken::BitXor,
            Token::ShiftLeft => SpecToken::ShiftLeft,
            Token::ShiftRight => SpecToken::ShiftRight,
            Token::LessThan => SpecToken::LessThan,
            Token::LessThanEqual => SpecToken::LessThanEqual,
            Token::GreaterThan => SpecToken::GreaterThan,
            Token::GreaterThanEqual => SpecToken::GreaterThanEqual,
            Token::Equal => SpecToken::Equal,
            Token::NotEqual => SpecToken::NotEqual,
            Token::And => SpecToken::And,
            Token::Or => SpecToken::Or,
            Token::Assign => SpecToken::Assign,
            Token::AssignAdd => SpecToken::AssignAdd,
            Token::AssignSub => SpecToken::AssignSub,
            Token::AssignMul => SpecToken::AssignMul,
            Token::AssignDiv => SpecToken::AssignDiv,
            Token::AssignMod => SpecToken::AssignMod,
            Token::AssignAnd => SpecToken::AssignAnd,
            Token::AssignOr => SpecToken::AssignOr,
            Token::AssignXor => SpecToken::AssignXor,
            Token::AssignShiftLeft => SpecToken::AssignShiftLeft,
            Token::AssignShiftRight => SpecToken::AssignShiftRight,
        }
    }
}

impl Clone for Token {
    fn clone(&self) -> (copy: Token)
        ensures
            copy@ == self@,
    {
        match self {
            Token::Keyword(k) => Token::Keyword(*k),
            Token::Identifier(name) => Token::Identifier(name.clone()),
            Token::Literal(l) => Token::Literal(*l),
            Token::OpenParenthesis => Token::OpenParenthesis,
            Token::CloseParenthesis => Token::CloseParenthesis,
            Token::OpenBrace => Token::OpenBrace,
            Token::CloseBrace => Token::CloseBrace,
            Token::Semicolon => Token::Semicolon,
            Token::Negative => Token::Negative,
            Token::Negation => Token::Negation,
            Token::Complement => Token::Complement,
            Token::Addition => Token::Addition,
            Token::Multiplication => Token::Multiplication,
            Token::Division => Token::Division,
            Token::Modulo => Token::Modulo,
            Token::BitAnd => Token::BitAnd,
            Token::BitOr => Token::BitOr,
            Token::BitXor => Token::BitXor,
            Token::ShiftLeft => Token::ShiftLeft,
            Token::ShiftRight => Token::ShiftRight,
            Token::LessThan => Token::LessThan,
            Token::LessThanEqual => Token::LessThanEqual,
            Token::GreaterThan => Token::GreaterThan,
            Token::GreaterThanEqual => Token::GreaterThanEqual,
            Token::Equal => Token::Equal,
            Token::NotEqual => Token::NotEqual,
            Token::And => Token::And,
            Token::Or => Token::Or,
            Token::Assign => Token::Assign,
            Token::AssignAdd => Token::AssignAdd,
            Token::AssignSub => Token::AssignSub,
            Token::AssignMul => Token::AssignMul,
            Token::AssignDiv => Token::AssignDiv,
            Token::AssignMod => Token::AssignMod,
            Token::AssignAnd => Token::AssignAnd,
            Token::AssignOr => Token::AssignOr,
            Token::AssignXor => Token::AssignXor,
            Token::AssignShiftLeft => Token::AssignShiftLeft,
            Token::AssignShiftRight => Token::AssignShiftRight,
        }
    }
}

impl PartialEq for Token {
    fn eq(&self, other: &Token) -> (b: bool) {
        match (self, other) {
            (Token::Keyword(a), Token::Keyword(b)) => *a == *b,
            (Token::Identifier(a), Token::Identifier(b)) => *a == *b,
            (Token::Literal(a), Token::Literal(b)) => *a == *b,
            (Token::OpenParenthesis, Token::OpenParenthesis) => true,
            (Token::CloseParenthesis, Token::CloseParenthesis) => true,
            (Token::OpenBrace, Token::OpenBrace) => true,
            (Token::CloseBrace, Token::CloseBrace) => true,
            (Token::Semicolon, Token::Semicolon) => true,
            (Token::Negative, Token::Negative) => true,
            (Token::Negation, Token::Negation) => true,
            (Token::Complement, Token::Complement) => true,
            (Token::Addition, Token::Addition) => true,
            (Token::Multiplication, Token::Multiplication) => true,
            (Token::Division, Token::Division) => true,
            (Token::Modulo, Token::Modulo) => true,
            (Token::BitAnd, Token::BitAnd) => true,
            (Token::BitOr, Token::BitOr) => true,
            (Token::BitXor, Token::BitXor) => true,
            (Token::ShiftLeft, Token::ShiftLeft) => true,
            (Token::ShiftRight, Token::ShiftRight) => true,
            (Token::LessThan, Token::LessThan) => true,
            (Token::LessThanEqual, Token::LessThanEqual) => true,
            (Token::GreaterThan, Token::GreaterThan) => true,
            (Token::GreaterThanEqual, Token::GreaterThanEqual) => true,
            (Token::Equal, Token::Equal) => true,
            (Token::NotEqual, Token::NotEqual) => true,
            (Token::And, Token::And) => true,
            (Token::Or, Token::Or) => true,
            (Token::Assign, Token::Assign) => true,
            (Token::AssignAdd, Token::AssignAdd) => true,
            (Token::AssignSub, Token::AssignSub) => true,
            (Token::AssignMul, Token::AssignMul) => true,
            (Token::AssignDiv, Token::AssignDiv) => true,
            (Token::AssignMod, Token::AssignMod) => true,
            (Token::AssignAnd, Token::AssignAnd) => true,
            (Token::AssignOr, Token::AssignOr) => true,
            (Token::AssignXor, Token::AssignXor) => true,
            (Token::AssignShiftLeft, Token::AssignShiftLeft) => true,
            (Token::AssignShiftRight, Token::AssignShiftRight) => true,
            _ => false,
        }
    }
}

impl Eq for Token {

}

impl PartialEqSpecImpl for Token {
    open spec fn obeys_eq_spec() -> bool {
        true
    }

    open spec fn eq_spec(&self, other: &Token) -> bool {
        self@ == other@
    }
}

/// The views of a sequence of tokens, in order.
pub open spec fn token_views(tokens: Seq<Token>) -> Seq<SpecToken> {
    tokens.map_values(|t: Token| t@)
}

/// Dropping the first token and taking views commute.
pub proof fn lemma_views_drop_first(tokens: Seq<Token>)
    requires
        tokens.len() > 0,
    ensures
        token_views(tokens.drop_first()) == token_views(tokens).drop_first(),
        token_views(tokens)[0] == tokens[0]@,
{
    assert(token_views(tokens.drop_first()) =~= token_views(tokens).drop_first());
}

/// Putting a token in front and taking views commute.
pub proof fn lemma_views_push_front(tok: Token, tokens: Seq<Token>)
    ensures
        token_views(seq![tok] + tokens) == seq![tok@] + token_views(tokens),
{
    assert(token_views(seq![tok] + tokens) =~= seq![tok@] + token_views(tokens));
}

} // verus!
