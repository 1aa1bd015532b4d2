//! Diagnostics: lexical errors with their source location, and syntax errors
//! that say what was expected and what was found.
use vstd::prelude::*;
use crate::lexer::{chars_of, code_of, string_of};
use crate::token::Token;

verus! {

/// A lexical error at a 1-based row and column.
#[derive(Debug, Clone, PartialEq, Eq)]
pub struct Error {
    pub row: usize,
    pub col: usize,
    pub kind: ErrorKind,
}

impl Error {
    pub fn new(location: (usize, usize), kind: ErrorKind) -> (r: Self)
        ensures
            r.row == location.0,
            r.col == location.1,
            r.kind == kind,
    {
        Self { row: location.0, col: location.1, kind }
    }
}

/// The closed set of lexical error kinds.
#[derive(Debug, Clone, PartialEq, Eq)]
pub enum ErrorKind {
    BadUnicodeEscape(String),
    InvalidCharInEscape(char),
    InvalidFloat(String),
    TruncatedEscapeSequence,
    UnknownEscape(char),
    UnknownStartOfToken(char),
    UnterminatedStr,
}

/// The upper-case hexadecimal digits, by value.
pub open spec fn hex_alphabet() -> Seq<char> {
    seq!['0', '1', '2', '3', '4', '5', '6', '7', '8', '9', 'A', 'B', 'C', 'D', 'E', 'F']
}

/// The upper-case hexadecimal digits of `v`, without leading zeros.
pub open spec fn hex_upper(v: nat) -> Seq<char>
    decreases v,
{
    if v < 16 {
        seq![hex_alphabet()[v as int]]
    } else {
        hex_upper(v / 16).push(hex_alphabet()[(v % 16) as int])
    }
}

/// `s` with zeros in front up to four characters.
pub open spec fn pad4(s: Seq<char>) -> Seq<char> {
    if s.len() < 4 {
        Seq::new((4 - s.len()) as nat, |i: int| '0') + s
    } else {
        s
    }
}

/// The message of each lexical error kind.
pub open spec fn message_of(k: ErrorKind) -> Seq<char> {
    match k {
        ErrorKind::BadUnicodeEscape(s) => "bad unicode escape sequence '"@ + s@ + "'"@,
        ErrorKind::InvalidCharInEscape(c) => "invalid character in escape sequence: '"@ + seq![c]
            + "'"@,
        ErrorKind::InvalidFloat(s) => "invalid float literal '"@ + s@ + "'"@,
        ErrorKind::TruncatedEscapeSequence => "escape sequence is too short"@,
        ErrorKind::UnknownEscape(c) => "unknown escape '"@ + seq![c] + "'"@,
        ErrorKind::UnknownStartOfToken(c) => "unknown start of token (U+"@ + pad4(
            hex_upper(code_of(c) as nat),
        ) + ")"@,
        ErrorKind::UnterminatedStr => "unterminated string literal"@,
    }
}

/// Appends the characters of `s`.
fn push_str(out: &mut Vec<char>, s: &str)
    ensures
        final(out)@ == old(out)@ + s@,
{
    let cs = chars_of(s);
    push_chars(out, &cs);
}

/// Appends the characters of `cs`.
fn push_chars(out: &mut Vec<char>, cs: &Vec<char>)
    ensures
        final(out)@ == old(out)@ + cs@,
{
    let ghost start = out@;
    let mut i: usize = 0;
    while i < cs.len()
        invariant
            i <= cs@.len(),
            out@ == start + cs@.subrange(0, i as int),
            start == old(out)@,
        decreases cs@.len() - i,
    {
        out.push(cs[i]);
        i = i + 1;
        assert(out@ =~= start + cs@.subrange(0, i as int));
    }
    assert(cs@.subrange(0, i as int) =~= cs@);
}

fn hex_char(d: u32) -> (r: char)
    requires
        d < 16,
    ensures
        r == hex_alphabet()[d as int],
{
    if d == 0 {
        '0'
    } else if d == 1 {
        '1'
    } else if d == 2 {
        '2'
    } else if d == 3 {
        '3'
    } else if d == 4 {
        '4'
    } else if d == 5 {
        '5'
    } else if d == 6 {
        '6'
    } else if d == 7 {
        '7'
    } else if d == 8 {
        '8'
    } else if d == 9 {
        '9'
    } else if d == 10 {
        'A'
    } else if d == 11 {
        'B'
    } else if d == 12 {
        'C'
    } else if d == 13 {
        'D'
    } else if d == 14 {
        'E'
    } else {
        'F'
    }
}

fn hex_upper_exec(v: u32) -> (r: Vec<char>)
    ensures
        r@ == hex_upper(v as nat),
    decreases v,
{
    if v < 16 {
        let mut r: Vec<char> = Vec::new();
        r.push(hex_char(v));
        assert(r@ =~= hex_upper(v as nat));
        r
    } else {
        let mut r = hex_upper_exec(v / 16);
        r.push(hex_char(v % 16));
        r
    }
}

impl ErrorKind {
    /// The human-readable message of this kind.
    pub fn message(&self) -> (r: String)
        ensures
            r@ == message_of(*self),
    {
        let mut out: Vec<char> = Vec::new();
        match self {
            ErrorKind::BadUnicodeEscape(s) => {
                push_str(&mut out, "bad unicode escape sequence '");
                push_str(&mut out, s.as_str());
                push_str(&mut out, "'");
            },
            ErrorKind::InvalidCharInEscape(c) => {
                push_str(&mut out, "invalid character in escape sequence: '");
                out.push(*c);
                push_str(&mut out, "'");
            },
            ErrorKind::InvalidFloat(s) => {
                push_str(&mut out, "invalid float literal '");
                push_str(&mut out, s.as_str());
                push_str(&mut out, "'");
            },
            ErrorKind::TruncatedEscapeSequence => {
                push_str(&mut out, "escape sequence is too short");
            },
            ErrorKind::UnknownEscape(c) => {
                push_str(&mut out, "unknown escape '");
                out.push(*c);
                push_str(&mut out, "'");
            },
            ErrorKind::UnknownStartOfToken(c) => {
                push_str(&mut out, "unknown start of token (U+");
                let digits = hex_upper_exec(*c as u32);
                let ghost before = out@;
                let mut k: usize = digits.len();
                while k < 4
                    invariant
                        digits@.len() <= k,
                        k <= 4 || k == digits@.len(),
                        out@ == before + Seq::new((k - digits@.len()) as nat, |i: int| '0'),
                    decreases 4 - k,
                {
                    out.push('0');
                    k = k + 1;
                    assert(out@ =~= before + Seq::new((k - digits@.len()) as nat, |i: int| '0'));
                }
                push_chars(&mut out, &digits);
                push_str(&mut out, ")");
                assert(pad4(digits@) =~= Seq::new((k - digits@.len()) as nat, |i: int| '0')
                    + digits@);
            },
            ErrorKind::UnterminatedStr => {
                push_str(&mut out, "unterminated string literal");
            },
        }
        assert(out@ =~= message_of(*self));
        string_of(&out)
    }
}

/// What a grammar rule wanted at the place where parsing stopped.
#[derive(Debug, Clone, PartialEq, Eq)]
pub enum Expected {
    /// This exact token.
    Token(Token),
    /// The keyword `fn` that starts a function definition.
    FuncDef,
    Identifier,
    Type,
    /// A return type, or the `{` that opens the body, after the parameters
    /// of the function with this name.
    ReturnType(String),
    /// `,` or `)` in a parameter or argument list.
    CommaOrRParen,
    /// A newline or `;` after a statement.
    StatementEnd,
    /// An identifier or a literal.
    Operand,
    /// A statement other than a function definition.
    NoNestedFunction,
    /// The end of a comparison: comparators do not chain.
    NoChainedComparison,
}

/// A syntax error: what was expected, the token found there (none at the end
/// of the input), and the index of that token.
#[derive(Debug, Clone, PartialEq, Eq)]
pub struct ParseError {
    pub expected: Expected,
    pub found: Option<Token>,
    pub position: usize,
}

} // verus!
