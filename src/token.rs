//! The tokens that the lexer produces and the parser reads.
use vstd::prelude::*;

verus! {

/// A primitive type name.
#[derive(Debug, Clone, Copy, PartialEq, Eq, Structural)]
pub enum Type {
    I64,
    Void,
}

/// `=` and the compound assignment symbols.
#[derive(Debug, Clone, Copy, PartialEq, Eq, Structural)]
pub enum AssignmentSymbol {
    Eq,
    PlusEq,
    MinusEq,
    TimesEq,
    DivideEq,
}

/// The comparison symbols `==`, `!=`, `<`, `<=`, `>`, `>=`.
#[derive(Debug, Clone, Copy, PartialEq, Eq, Structural)]
pub enum ComparatorSymbol {
    EqualTo,
    NotEqualTo,
    LessThan,
    LessThanOrEqualTo,
    GreaterThan,
    GreaterThanOrEqualTo,
}

/// The arithmetic symbols `+`, `-`, `*`, `/`.
#[derive(Debug, Clone, Copy, PartialEq, Eq, Structural)]
pub enum OperatorSymbol {
    Plus,
    Minus,
    Asterisk,
    Slash,
}

/// Single-character marks that have no role of their own in the grammar.
#[derive(Debug, Clone, Copy, PartialEq, Eq, Structural)]
pub enum Punctuation {
    Ampersand,
    At,
    Backslash,
    Caret,
    Dollar,
    Exclamation,
    Hashtag,
    Percent,
    Pipe,
    Question,
    SingleQuote,
    Tilde,
}

/// One lexical unit.
#[derive(Debug, Clone, PartialEq, Eq)]
pub enum Token {
    Fn,
    While,
    Ret,
    Type(Type),
    Identifier(String),
    I64Literal(i64),
    StrLiteral(String),
    AssignmentSymbol(AssignmentSymbol),
    ComparatorSymbol(ComparatorSymbol),
    OperatorSymbol(OperatorSymbol),
    Punctuation(Punctuation),
    Comma,
    Semicolon,
    Colon,
    Dot,
    LParen,
    RParen,
    LSquirly,
    RSquirly,
    LBracket,
    RBracket,
    Newline,
    Comment(String),
    Docstring(String),
}

/// Whether a token holds text from the source (a name, a string, a comment).
pub open spec fn carries_text(t: Token) -> bool {
    t is Identifier || t is StrLiteral || t is Comment || t is Docstring
}

impl Token {
    /// A copy of this token.
    pub fn duplicate(&self) -> (r: Token)
        ensures
            r == *self,
    {
        match self {
            Token::Fn => Token::Fn,
            Token::While => Token::While,
            Token::Ret => Token::Ret,
            Token::Type(t) => Token::Type(*t),
            Token::Identifier(s) => Token::Identifier(s.clone()),
            Token::I64Literal(v) => Token::I64Literal(*v),
            Token::StrLiteral(s) => Token::StrLiteral(s.clone()),
            Token::AssignmentSymbol(s) => Token::AssignmentSymbol(*s),
            Token::ComparatorSymbol(s) => Token::ComparatorSymbol(*s),
            Token::OperatorSymbol(s) => Token::OperatorSymbol(*s),
            Token::Punctuation(p) => Token::Punctuation(*p),
            Token::Comma => Token::Comma,
            Token::Semicolon => Token::Semicolon,
            Token::Colon => Token::Colon,
            Token::Dot => Token::Dot,
            Token::LParen => Token::LParen,
            Token::RParen => Token::RParen,
            Token::LSquirly => Token::LSquirly,
            Token::RSquirly => Token::RSquirly,
            Token::LBracket => Token::LBracket,
            Token::RBracket => Token::RBracket,
            Token::Newline => Token::Newline,
            Token::Comment(s) => Token::Comment(s.clone()),
            Token::Docstring(s) => Token::Docstring(s.clone()),
        }
    }
}

} // verus!
