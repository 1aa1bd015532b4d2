//! The lexer: source characters to tokens, one token or lexical error per
//! call, with the row and column of each error.
use vstd::prelude::*;
use crate::error::{Error, ErrorKind};
use crate::token::{AssignmentSymbol, ComparatorSymbol, OperatorSymbol, Punctuation, Token, Type};

verus! {

/// A lexical error kind with its text as character sequences.
pub enum Fault {
    BadUnicodeEscape(Seq<char>),
    InvalidCharInEscape(char),
    InvalidFloat(Seq<char>),
    TruncatedEscapeSequence,
    UnknownEscape(char),
    UnknownStartOfToken(char),
    UnterminatedStr,
}

/// What one step of the lexer yields: a token without text, a token with
/// its text, or a fault at a row and column.
pub enum Lexeme {
    Token(Token),
    Identifier(Seq<char>),
    Str(Seq<char>),
    Comment(Seq<char>),
    Docstring(Seq<char>),
    Fault(Fault, int, int),
}

pub open spec fn fault_of(k: ErrorKind) -> Fault {
    match k {
        ErrorKind::BadUnicodeEscape(s) => Fault::BadUnicodeEscape(s@),
        ErrorKind::InvalidCharInEscape(c) => Fault::InvalidCharInEscape(c),
        ErrorKind::InvalidFloat(s) => Fault::InvalidFloat(s@),
        ErrorKind::TruncatedEscapeSequence => Fault::TruncatedEscapeSequence,
        ErrorKind::UnknownEscape(c) => Fault::UnknownEscape(c),
        ErrorKind::UnknownStartOfToken(c) => Fault::UnknownStartOfToken(c),
        ErrorKind::UnterminatedStr => Fault::UnterminatedStr,
    }
}

/// The view of one result of the lexer.
pub open spec fn lexeme_of(r: Result<Token, Error>) -> Lexeme {
    match r {
        Ok(Token::Identifier(s)) => Lexeme::Identifier(s@),
        Ok(Token::StrLiteral(s)) => Lexeme::Str(s@),
        Ok(Token::Comment(s)) => Lexeme::Comment(s@),
        Ok(Token::Docstring(s)) => Lexeme::Docstring(s@),
        Ok(t) => Lexeme::Token(t),
        Err(e) => Lexeme::Fault(fault_of(e.kind), e.row as int, e.col as int),
    }
}

/// The 1-based row and column of position `i`.
pub open spec fn location(cs: Seq<char>, i: int) -> (int, int)
    decreases i,
{
    if i <= 0 {
        (1, 1)
    } else {
        let (r, c) = location(cs, i - 1);
        if cs[i - 1] == '\n' {
            (r + 1, 1)
        } else {
            (r, c + 1)
        }
    }
}

pub proof fn lemma_location_bounds(cs: Seq<char>, i: int)
    requires
        0 <= i,
    ensures
        1 <= location(cs, i).0 <= i + 1,
        1 <= location(cs, i).1 <= i + 1,
    decreases i,
{
    if i > 0 {
        lemma_location_bounds(cs, i - 1);
    }
}

/// Whitespace that separates tokens; a newline is a token of its own.
pub open spec fn is_blank(c: char) -> bool {
    c == ' ' || c == '\t' || c == '\r' || c == '\x0C'
}

pub open spec fn is_digit(c: char) -> bool {
    '0' <= c <= '9'
}

pub open spec fn is_ident_start(c: char) -> bool {
    ('a' <= c <= 'z') || ('A' <= c <= 'Z') || c == '_'
}

pub open spec fn is_ident_char(c: char) -> bool {
    is_ident_start(c) || is_digit(c)
}

pub open spec fn is_hex_digit(c: char) -> bool {
    is_digit(c) || ('a' <= c <= 'f') || ('A' <= c <= 'F')
}

pub open spec fn hex_digit_value(c: char) -> int {
    if is_digit(c) {
        c as int - '0' as int
    } else if 'a' <= c <= 'f' {
        c as int - 'a' as int + 10
    } else {
        c as int - 'A' as int + 10
    }
}

/// A printable ASCII character other than a space.
pub open spec fn is_graphic(c: char) -> bool {
    '!' <= c <= '~'
}

/// The classes of characters that make up runs: the whitespace between
/// tokens, decimal digits, the characters of a name, hexadecimal digits,
/// and anything up to the end of a line.
#[derive(Clone, Copy, PartialEq, Eq, Structural)]
pub enum CharClass {
    Blank,
    Digit,
    Ident,
    Hex,
    NotNewline,
}

pub open spec fn in_class(c: char, k: CharClass) -> bool {
    match k {
        CharClass::Blank => is_blank(c),
        CharClass::Digit => is_digit(c),
        CharClass::Ident => is_ident_char(c),
        CharClass::Hex => is_hex_digit(c),
        CharClass::NotNewline => c != '\n',
    }
}

/// The first position from `i` on that holds no character of class `k`,
/// or the end.
pub open spec fn run_end(cs: Seq<char>, i: int, k: CharClass) -> int
    decreases cs.len() - i,
{
    if 0 <= i < cs.len() && in_class(cs[i], k) {
        run_end(cs, i + 1, k)
    } else {
        i
    }
}

pub proof fn lemma_run_end(cs: Seq<char>, i: int, k: CharClass)
    requires
        0 <= i <= cs.len(),
    ensures
        i <= run_end(cs, i, k) <= cs.len(),
        forall|j: int| i <= j < run_end(cs, i, k) ==> in_class(#[trigger] cs[j], k),
        run_end(cs, i, k) < cs.len() ==> !in_class(cs[run_end(cs, i, k)], k),
    decreases cs.len() - i,
{
    if i < cs.len() && in_class(cs[i], k) {
        lemma_run_end(cs, i + 1, k);
    }
}

/// The number that the decimal digits `cs[i..j]` write.
pub open spec fn decimal_value(cs: Seq<char>, i: int, j: int) -> int
    decreases j - i,
{
    if j <= i {
        0
    } else {
        decimal_value(cs, i, j - 1) * 10 + (cs[j - 1] as int - '0' as int)
    }
}

/// The number that the hexadecimal digits `cs[i..j]` write.
pub open spec fn hex_value(cs: Seq<char>, i: int, j: int) -> int
    decreases j - i,
{
    if j <= i {
        0
    } else {
        hex_value(cs, i, j - 1) * 16 + hex_digit_value(cs[j - 1])
    }
}

/// The numbers that name a character.
pub open spec fn is_scalar_value(v: int) -> bool {
    (0 <= v < 0xD800) || (0xE000 <= v <= 0x10FFFF)
}

/// The token that a reserved word stands for.
pub open spec fn keyword(w: Seq<char>) -> Option<Token> {
    if w == seq!['f', 'n'] {
        Some(Token::Fn)
    } else if w == seq!['w', 'h', 'i', 'l', 'e'] {
        Some(Token::While)
    } else if w == seq!['r', 'e', 't'] {
        Some(Token::Ret)
    } else if w == seq!['i', '6', '4'] {
        Some(Token::Type(Type::I64))
    } else {
        None
    }
}

pub open spec fn char_at(cs: Seq<char>, i: int) -> Option<char> {
    if 0 <= i < cs.len() {
        Some(cs[i])
    } else {
        None
    }
}

/// The end of a `\u{..}` escape whose backslash is at `i`.
pub open spec fn unicode_escape_end(cs: Seq<char>, i: int) -> int {
    if char_at(cs, i + 2) == Some('{') {
        let h = run_end(cs, i + 3, CharClass::Hex);
        if char_at(cs, h) == Some('}') {
            h + 1
        } else {
            h
        }
    } else {
        i + 2
    }
}

/// Whether the `\u{..}` escape at `i` names a character.
pub open spec fn unicode_escape_ok(cs: Seq<char>, i: int) -> bool {
    let h = run_end(cs, i + 3, CharClass::Hex);
    &&& char_at(cs, i + 2) == Some('{')
    &&& char_at(cs, h) == Some('}')
    &&& 1 <= h - (i + 3) <= 6
    &&& is_scalar_value(hex_value(cs, i + 3, h))
}

pub open spec fn code_of(c: char) -> int {
    c as int
}

/// The character whose code is `v`.
pub open spec fn char_with_code(v: int) -> char {
    choose|c: char| #[trigger] code_of(c) == v
}

/// The character that an escape letter other than `u` stands for.
pub open spec fn simple_escape(e: char) -> Option<char> {
    if e == 'n' {
        Some('\n')
    } else if e == 't' {
        Some('\t')
    } else if e == '"' {
        Some('"')
    } else if e == '\\' {
        Some('\\')
    } else {
        None
    }
}

/// The body of a string literal from `i` on, after the characters in `acc`:
/// its contents and the position after the closing quote, or the fault with
/// the position where it arose (the backslash of a bad escape, the end of
/// the input for a missing quote) and the position where scanning stopped.
pub open spec fn string_rest(cs: Seq<char>, i: int, acc: Seq<char>) -> (
    Result<Seq<char>, (Fault, int)>,
    int,
)
    decreases cs.len() - i,
{
    if i < 0 || i >= cs.len() {
        (Err((Fault::UnterminatedStr, cs.len() as int)), cs.len() as int)
    } else if cs[i] == '"' {
        (Ok(acc), i + 1)
    } else if cs[i] == '\\' {
        if i + 1 >= cs.len() {
            (Err((Fault::TruncatedEscapeSequence, i)), cs.len() as int)
        } else {
            let e = cs[i + 1];
            if e == 'u' {
                let end = unicode_escape_end(cs, i);
                if unicode_escape_ok(cs, i) && i < end {
                    let v = hex_value(cs, i + 3, end - 1);
                    string_rest(cs, end, acc.push(char_with_code(v)))
                } else {
                    (Err((Fault::BadUnicodeEscape(cs.subrange(i, end)), i)), end)
                }
            } else {
                match simple_escape(e) {
                    Some(c) => string_rest(cs, i + 2, acc.push(c)),
                    None => if is_graphic(e) {
                        (Err((Fault::UnknownEscape(e), i)), i + 2)
                    } else {
                        (Err((Fault::InvalidCharInEscape(e), i)), i + 2)
                    },
                }
            }
        }
    } else {
        string_rest(cs, i + 1, acc.push(cs[i]))
    }
}

/// The punctuation mark that `c` is, if any.
pub open spec fn punctuation_of(c: char) -> Option<Punctuation> {
    if c == '&' {
        Some(Punctuation::Ampersand)
    } else if c == '@' {
        Some(Punctuation::At)
    } else if c == '\\' {
        Some(Punctuation::Backslash)
    } else if c == '^' {
        Some(Punctuation::Caret)
    } else if c == '$' {
        Some(Punctuation::Dollar)
    } else if c == '!' {
        Some(Punctuation::Exclamation)
    } else if c == '#' {
        Some(Punctuation::Hashtag)
    } else if c == '%' {
        Some(Punctuation::Percent)
    } else if c == '|' {
        Some(Punctuation::Pipe)
    } else if c == '?' {
        Some(Punctuation::Question)
    } else if c == '\'' {
        Some(Punctuation::SingleQuote)
    } else if c == '~' {
        Some(Punctuation::Tilde)
    } else {
        None
    }
}

/// A symbol of one character, or of two where the second is `=`.
pub open spec fn symbol_at(cs: Seq<char>, s: int) -> Option<(Token, int)> {
    let c = cs[s];
    let eq_next = char_at(cs, s + 1) == Some('=');
    if c == '\n' {
        Some((Token::Newline, s + 1))
    } else if c == '(' {
        Some((Token::LParen, s + 1))
    } else if c == ')' {
        Some((Token::RParen, s + 1))
    } else if c == '{' {
        Some((Token::LSquirly, s + 1))
    } else if c == '}' {
        Some((Token::RSquirly, s + 1))
    } else if c == '[' {
        Some((Token::LBracket, s + 1))
    } else if c == ']' {
        Some((Token::RBracket, s + 1))
    } else if c == ',' {
        Some((Token::Comma, s + 1))
    } else if c == ';' {
        Some((Token::Semicolon, s + 1))
    } else if c == ':' {
        Some((Token::Colon, s + 1))
    } else if c == '.' {
        Some((Token::Dot, s + 1))
    } else if c == '+' {
        if eq_next {
            Some((Token::AssignmentSymbol(AssignmentSymbol::PlusEq), s + 2))
        } else {
            Some((Token::OperatorSymbol(OperatorSymbol::Plus), s + 1))
        }
    } else if c == '-' {
        if eq_next {
            Some((Token::AssignmentSymbol(AssignmentSymbol::MinusEq), s + 2))
        } else {
            Some((Token::OperatorSymbol(OperatorSymbol::Minus), s + 1))
        }
    } else if c == '*' {
        if eq_next {
            Some((Token::AssignmentSymbol(AssignmentSymbol::TimesEq), s + 2))
        } else {
            Some((Token::OperatorSymbol(OperatorSymbol::Asterisk), s + 1))
        }
    } else if c == '/' {
        if eq_next {
            Some((Token::AssignmentSymbol(AssignmentSymbol::DivideEq), s + 2))
        } else {
            Some((Token::OperatorSymbol(OperatorSymbol::Slash), s + 1))
        }
    } else if c == '=' {
        if eq_next {
            Some((Token::ComparatorSymbol(ComparatorSymbol::EqualTo), s + 2))
        } else {
            Some((Token::AssignmentSymbol(AssignmentSymbol::Eq), s + 1))
        }
    } else if c == '!' {
        if eq_next {
            Some((Token::ComparatorSymbol(ComparatorSymbol::NotEqualTo), s + 2))
        } else {
            Some((Token::Punctuation(Punctuation::Exclamation), s + 1))
        }
    } else if c == '<' {
        if eq_next {
            Some((Token::ComparatorSymbol(ComparatorSymbol::LessThanOrEqualTo), s + 2))
        } else {
            Some((Token::ComparatorSymbol(ComparatorSymbol::LessThan), s + 1))
        }
    } else if c == '>' {
        if eq_next {
            Some((Token::ComparatorSymbol(ComparatorSymbol::GreaterThanOrEqualTo), s + 2))
        } else {
            Some((Token::ComparatorSymbol(ComparatorSymbol::GreaterThan), s + 1))
        }
    } else {
        match punctuation_of(c) {
            Some(p) => Some((Token::Punctuation(p), s + 1)),
            None => None,
        }
    }
}

pub open spec fn fault_at(cs: Seq<char>, s: int, f: Fault) -> Lexeme {
    Lexeme::Fault(f, location(cs, s).0, location(cs, s).1)
}

/// The token that starts at `s`, where no whitespace stands, and the
/// position after it.
pub open spec fn lex_at(cs: Seq<char>, s: int) -> (Lexeme, int) {
    let c = cs[s];
    if c == '/' && char_at(cs, s + 1) == Some('/') {
        if char_at(cs, s + 2) == Some('/') {
            let e = run_end(cs, s + 3, CharClass::NotNewline);
            (Lexeme::Docstring(cs.subrange(s + 3, e)), e)
        } else {
            let e = run_end(cs, s + 2, CharClass::NotNewline);
            (Lexeme::Comment(cs.subrange(s + 2, e)), e)
        }
    } else if c == '"' {
        match string_rest(cs, s + 1, Seq::empty()) {
            (Ok(text), e) => (Lexeme::Str(text), e),
            (Err((f, at)), e) => (fault_at(cs, at, f), e),
        }
    } else if is_digit(c) {
        let e = run_end(cs, s, CharClass::Digit);
        if char_at(cs, e) == Some('.') || char_at(cs, e) == Some('e') || char_at(cs, e) == Some('E') {
            (fault_at(cs, s, Fault::InvalidFloat(cs.subrange(s, e + 1))), e + 1)
        } else if decimal_value(cs, s, e) > i64::MAX {
            (fault_at(cs, s, Fault::InvalidFloat(cs.subrange(s, e))), e)
        } else {
            (Lexeme::Token(Token::I64Literal(decimal_value(cs, s, e) as i64)), e)
        }
    } else if is_ident_start(c) {
        let e = run_end(cs, s, CharClass::Ident);
        match keyword(cs.subrange(s, e)) {
            Some(t) => (Lexeme::Token(t), e),
            None => (Lexeme::Identifier(cs.subrange(s, e)), e),
        }
    } else {
        match symbol_at(cs, s) {
            Some((t, e)) => (Lexeme::Token(t), e),
            None => (fault_at(cs, s, Fault::UnknownStartOfToken(c)), s + 1),
        }
    }
}

/// One step of the lexer from `i`: nothing where only whitespace is left.
pub open spec fn step(cs: Seq<char>, i: int) -> Option<(Lexeme, int)> {
    let s = run_end(cs, i, CharClass::Blank);
    if s >= cs.len() {
        None
    } else {
        Some(lex_at(cs, s))
    }
}

/// Everything the lexer yields from `i` to the end of the input.
pub open spec fn lex_from(cs: Seq<char>, i: int) -> Seq<Lexeme>
    decreases cs.len() - i,
{
    match step(cs, i) {
        None => Seq::empty(),
        Some((lx, e)) => if i < e <= cs.len() {
            seq![lx] + lex_from(cs, e)
        } else {
            seq![lx]
        },
    }
}

pub proof fn lemma_decimal_nonneg(cs: Seq<char>, s: int, j: int)
    requires
        0 <= s,
        j <= cs.len(),
        forall|k: int| s <= k < j ==> is_digit(#[trigger] cs[k]),
    ensures
        0 <= decimal_value(cs, s, j),
    decreases j - s,
{
    if j > s {
        lemma_decimal_nonneg(cs, s, j - 1);
    }
}

pub proof fn lemma_hex_nonneg(cs: Seq<char>, s: int, j: int)
    requires
        0 <= s,
        j <= cs.len(),
        forall|k: int| s <= k < j ==> is_hex_digit(#[trigger] cs[k]),
    ensures
        0 <= hex_value(cs, s, j),
    decreases j - s,
{
    if j > s {
        lemma_hex_nonneg(cs, s, j - 1);
    }
}

/// The characters of a string slice, in order.
pub(crate) fn chars_of(s: &str) -> (r: Vec<char>)
    ensures
        r@ == s@,
{
    broadcast use vstd::string::axiom_spec_iter;

    let mut out: Vec<char> = Vec::new();
    for c in it: s.chars()
        invariant
            out@ == it.history(),
    {
        out.push(c);
    }
    assert(out@ =~= s@);
    out
}

/// Relies on String's FromIterator<char>: a string of these characters.
#[verifier::external_body]
pub(crate) fn string_of(cs: &Vec<char>) -> (r: String)
    ensures
        r@ == cs@,
{
    cs.iter().collect()
}

/// Relies on char::from_u32: a character exactly for the scalar values.
#[verifier::external_body]
fn char_from_u32(v: u32) -> (r: Option<char>)
    ensures
        r is Some <==> is_scalar_value(v as int),
        r matches Some(c) ==> code_of(c) == v,
{
    char::from_u32(v)
}

fn in_class_exec(c: char, k: CharClass) -> (r: bool)
    ensures
        r == in_class(c, k),
{
    match k {
        CharClass::Blank => c == ' ' || c == '\t' || c == '\r' || c == '\x0C',
        CharClass::Digit => '0' <= c && c <= '9',
        CharClass::Ident => ('a' <= c && c <= 'z') || ('A' <= c && c <= 'Z') || c == '_' || ('0'
            <= c && c <= '9'),
        CharClass::Hex => ('0' <= c && c <= '9') || ('a' <= c && c <= 'f') || ('A' <= c && c
            <= 'F'),
        CharClass::NotNewline => c != '\n',
    }
}

fn punctuation(c: char) -> (r: Option<Punctuation>)
    ensures
        r == punctuation_of(c),
{
    if c == '&' {
        Some(Punctuation::Ampersand)
    } else if c == '@' {
        Some(Punctuation::At)
    } else if c == '\\' {
        Some(Punctuation::Backslash)
    } else if c == '^' {
        Some(Punctuation::Caret)
    } else if c == '$' {
        Some(Punctuation::Dollar)
    } else if c == '!' {
        Some(Punctuation::Exclamation)
    } else if c == '#' {
        Some(Punctuation::Hashtag)
    } else if c == '%' {
        Some(Punctuation::Percent)
    } else if c == '|' {
        Some(Punctuation::Pipe)
    } else if c == '?' {
        Some(Punctuation::Question)
    } else if c == '\'' {
        Some(Punctuation::SingleQuote)
    } else if c == '~' {
        Some(Punctuation::Tilde)
    } else {
        None
    }
}

fn hex_digit_exec(c: char) -> (r: u32)
    requires
        is_hex_digit(c),
    ensures
        r as int == hex_digit_value(c),
        r < 16,
{
    if '0' <= c && c <= '9' {
        (c as u32) - ('0' as u32)
    } else if 'a' <= c && c <= 'f' {
        (c as u32) - ('a' as u32) + 10
    } else {
        (c as u32) - ('A' as u32) + 10
    }
}

/// A lexer over one source text: each call of `next` yields the next token
/// or lexical error.
pub struct Tokens {
    chars: Vec<char>,
    pos: usize,
    row: usize,
    col: usize,
    start_row: usize,
    start_col: usize,
}

impl Tokens {
    /// The source text.
    pub closed spec fn source(&self) -> Seq<char> {
        self.chars@
    }

    /// The position of the first character not yet read.
    pub closed spec fn pos(&self) -> int {
        self.pos as int
    }

    /// The row and column where the last token or error that `next` gave
    /// begins.
    pub closed spec fn token_start(&self) -> (int, int) {
        (self.start_row as int, self.start_col as int)
    }

    pub closed spec fn wf(&self) -> bool {
        &&& self.pos <= self.chars@.len()
        &&& self.chars@.len() < usize::MAX
        &&& (self.row as int, self.col as int) == location(self.chars@, self.pos as int)
    }

    pub fn new(src: &str) -> (r: Self)
        requires
            src@.len() < usize::MAX,
        ensures
            r.wf(),
            r.source() == src@,
            r.pos() == 0,
    {
        Self { chars: chars_of(src), pos: 0, row: 1, col: 1, start_row: 1, start_col: 1 }
    }

    /// The end of the run of class `k` from `i` on.
    fn class_end(&self, i: usize, k: CharClass) -> (r: usize)
        requires
            self.wf(),
            i <= self.chars@.len(),
        ensures
            r as int == run_end(self.chars@, i as int, k),
    {
        proof {
            lemma_run_end(self.chars@, i as int, k);
        }
        let mut j = i;
        while j < self.chars.len() && in_class_exec(self.chars[j], k)
            invariant
                self.wf(),
                i <= j <= self.chars@.len(),
                run_end(self.chars@, j as int, k) == run_end(self.chars@, i as int, k),
            decreases self.chars@.len() - j,
        {
            j = j + 1;
        }
        j
    }

    /// The character at `i`, if there is one.
    fn char_at_exec(&self, i: usize) -> (r: Option<char>)
        requires
            self.wf(),
        ensures
            r == char_at(self.chars@, i as int),
    {
        if i < self.chars.len() {
            Some(self.chars[i])
        } else {
            None
        }
    }

    /// The characters from `s` up to `e` as a string.
    fn text(&self, s: usize, e: usize) -> (r: String)
        requires
            self.wf(),
            s <= e <= self.chars@.len(),
        ensures
            r@ == self.chars@.subrange(s as int, e as int),
    {
        let mut out: Vec<char> = Vec::new();
        let mut j = s;
        while j < e
            invariant
                self.wf(),
                s <= j <= e <= self.chars@.len(),
                out@ == self.chars@.subrange(s as int, j as int),
            decreases e - j,
        {
            out.push(self.chars[j]);
            j = j + 1;
            assert(out@ =~= self.chars@.subrange(s as int, j as int));
        }
        string_of(&out)
    }

    /// Moves the cursor forward to `e`, keeping row and column.
    fn advance_to(&mut self, e: usize)
        requires
            old(self).wf(),
            old(self).pos() <= e <= old(self).source().len(),
        ensures
            final(self).wf(),
            final(self).source() == old(self).source(),
            final(self).pos() == e,
    {
        while self.pos < e
            invariant
                self.wf(),
                self.source() == old(self).source(),
                self.pos <= e <= self.chars@.len(),
            decreases e - self.pos,
        {
            proof {
                lemma_location_bounds(self.chars@, self.pos + 1);
            }
            if self.chars[self.pos] == '\n' {
                self.row = self.row + 1;
                self.col = 1;
            } else {
                self.col = self.col + 1;
            }
            self.pos = self.pos + 1;
        }
    }

    /// An error of kind `kind` at the cursor.
    fn error_here(&self, kind: ErrorKind) -> (r: Error)
        requires
            self.wf(),
        ensures
            r.row as int == location(self.chars@, self.pos as int).0,
            r.col as int == location(self.chars@, self.pos as int).1,
            r.kind == kind,
    {
        Error::new((self.row, self.col), kind)
    }

    /// Reads a run of decimal digits as an `i64`; a `.`, `e` or `E` right
    /// after the digits, or a value too large, is an invalid literal.
    fn read_numeric_literal(&mut self) -> (r: Result<Token, Error>)
        requires
            old(self).wf(),
            old(self).pos() < old(self).source().len(),
            is_digit(old(self).source()[old(self).pos()]),
        ensures
            final(self).wf(),
            final(self).source() == old(self).source(),
            (lexeme_of(r), final(self).pos()) == lex_at(old(self).source(), old(self).pos()),
            old(self).pos() < final(self).pos(),
    {
        let ghost cs = self.chars@;
        let s = self.pos;
        let e = self.class_end(s, CharClass::Digit);
        proof {
            lemma_run_end(cs, s as int, CharClass::Digit);
        }
        match self.char_at_exec(e) {
            Some('.') | Some('e') | Some('E') => {
                let err = self.error_here(ErrorKind::InvalidFloat(self.text(s, e + 1)));
                self.advance_to(e + 1);
                return Err(err);
            },
            _ => {},
        }
        let mut acc: u64 = 0;
        let mut too_large = false;
        let mut j = s;
        while j < e
            invariant
                self.wf(),
                cs == self.chars@,
                self.pos == s,
                s <= j <= e <= cs.len(),
                forall|k: int| s <= k < e ==> is_digit(#[trigger] cs[k]),
                !too_large ==> acc as int == decimal_value(cs, s as int, j as int) && acc
                    <= i64::MAX,
                too_large ==> decimal_value(cs, s as int, j as int) > i64::MAX,
            decreases e - j,
        {
            proof {
                lemma_decimal_nonneg(cs, s as int, j as int);
            }
            let d = ((self.chars[j] as u32) - ('0' as u32)) as u64;
            if !too_large {
                if acc > 922337203685477580 || (acc == 922337203685477580 && d > 7) {
                    too_large = true;
                } else {
                    acc = acc * 10 + d;
                }
            }
            j = j + 1;
        }
        if too_large {
            let err = self.error_here(ErrorKind::InvalidFloat(self.text(s, e)));
            self.advance_to(e);
            Err(err)
        } else {
            self.advance_to(e);
            Ok(Token::I64Literal(acc as i64))
        }
    }

    /// The reserved word that `chars[s..e]` spells, if any.
    fn keyword_of(&self, s: usize, e: usize) -> (r: Option<Token>)
        requires
            self.wf(),
            s <= e <= self.chars@.len(),
        ensures
            r == keyword(self.chars@.subrange(s as int, e as int)),
    {
        let ghost w = self.chars@.subrange(s as int, e as int);
        let n = e - s;
        if n == 2 && self.chars[s] == 'f' && self.chars[s + 1] == 'n' {
            assert(w =~= seq!['f', 'n']);
            Some(Token::Fn)
        } else if n == 5 && self.chars[s] == 'w' && self.chars[s + 1] == 'h' && self.chars[s + 2]
            == 'i' && self.chars[s + 3] == 'l' && self.chars[s + 4] == 'e' {
            assert(w =~= seq!['w', 'h', 'i', 'l', 'e']);
            Some(Token::While)
        } else if n == 3 && self.chars[s] == 'r' && self.chars[s + 1] == 'e' && self.chars[s + 2]
            == 't' {
            assert(w =~= seq!['r', 'e', 't']);
            Some(Token::Ret)
        } else if n == 3 && self.chars[s] == 'i' && self.chars[s + 1] == '6' && self.chars[s + 2]
            == '4' {
            assert(w =~= seq!['i', '6', '4']);
            Some(Token::Type(Type::I64))
        } else {
            assert(w != seq!['f', 'n'] && w != seq!['w', 'h', 'i', 'l', 'e'] && w != seq![
                'r',
                'e',
                't',
            ] && w != seq!['i', '6', '4']) by {
                if w.len() == 2 {
                    assert(w[0] == self.chars@[s as int] && w[1] == self.chars@[s + 1]);
                }
                if w.len() == 5 {
                    assert(w[0] == self.chars@[s as int] && w[1] == self.chars@[s + 1]);
                    assert(w[2] == self.chars@[s + 2] && w[3] == self.chars@[s + 3]);
                    assert(w[4] == self.chars@[s + 4]);
                }
                if w.len() == 3 {
                    assert(w[0] == self.chars@[s as int] && w[1] == self.chars@[s + 1]);
                    assert(w[2] == self.chars@[s + 2]);
                }
            }
            None
        }
    }

    /// Reads a name, or the reserved word it spells.
    fn read_identifier(&mut self) -> (r: Result<Token, Error>)
        requires
            old(self).wf(),
            old(self).pos() < old(self).source().len(),
            is_ident_start(old(self).source()[old(self).pos()]),
        ensures
            final(self).wf(),
            final(self).source() == old(self).source(),
            (lexeme_of(r), final(self).pos()) == lex_at(old(self).source(), old(self).pos()),
            old(self).pos() < final(self).pos(),
    {
        let s = self.pos;
        let e = self.class_end(s, CharClass::Ident);
        proof {
            lemma_run_end(self.chars@, s as int, CharClass::Ident);
        }
        let token = match self.keyword_of(s, e) {
            Some(t) => t,
            None => Token::Identifier(self.text(s, e)),
        };
        self.advance_to(e);
        Ok(token)
    }

    /// A comment or docstring: from after its marker to the end of the line.
    fn read_comment(&mut self) -> (r: Result<Token, Error>)
        requires
            old(self).wf(),
            old(self).pos() + 1 < old(self).source().len(),
            old(self).source()[old(self).pos()] == '/',
            old(self).source()[old(self).pos() + 1] == '/',
        ensures
            final(self).wf(),
            final(self).source() == old(self).source(),
            (lexeme_of(r), final(self).pos()) == lex_at(old(self).source(), old(self).pos()),
            old(self).pos() < final(self).pos(),
    {
        let s = self.pos;
        let doc = match self.char_at_exec(s + 2) {
            Some('/') => true,
            _ => false,
        };
        let from = if doc {
            s + 3
        } else {
            s + 2
        };
        let e = self.class_end(from, CharClass::NotNewline);
        proof {
            lemma_run_end(self.chars@, from as int, CharClass::NotNewline);
        }
        let body = self.text(from, e);
        self.advance_to(e);
        if doc {
            Ok(Token::Docstring(body))
        } else {
            Ok(Token::Comment(body))
        }
    }

    /// The end of the `\u{..}` escape whose backslash is at `i`, and the
    /// character it names, if it names one.
    fn unicode_escape(&self, i: usize) -> (r: (usize, Option<char>))
        requires
            self.wf(),
            i + 1 < self.chars@.len(),
        ensures
            r.0 as int == unicode_escape_end(self.chars@, i as int),
            i < r.0 <= self.chars@.len(),
            r.1 is Some <==> unicode_escape_ok(self.chars@, i as int),
            r.1 matches Some(c) ==> c == char_with_code(
                hex_value(self.chars@, i + 3, r.0 - 1),
            ),
    {
        let ghost cs = self.chars@;
        match self.char_at_exec(i + 2) {
            Some('{') => {},
            _ => return (i + 2, None),
        }
        let a = i + 3;
        let h = self.class_end(a, CharClass::Hex);
        proof {
            lemma_run_end(cs, a as int, CharClass::Hex);
        }
        let closed = match self.char_at_exec(h) {
            Some('}') => true,
            _ => false,
        };
        let end = if closed {
            h + 1
        } else {
            h
        };
        if !closed || h - a < 1 || h - a > 6 {
            return (end, None);
        }
        let mut v: u32 = 0;
        let mut too_large = false;
        let mut j = a;
        while j < h
            invariant
                self.wf(),
                cs == self.chars@,
                a <= j <= h <= cs.len(),
                forall|k: int| a <= k < h ==> is_hex_digit(#[trigger] cs[k]),
                !too_large ==> v as int == hex_value(cs, a as int, j as int) && v <= 0x10FFFF,
                too_large ==> hex_value(cs, a as int, j as int) > 0x10FFFF,
            decreases h - j,
        {
            proof {
                lemma_hex_nonneg(cs, a as int, j as int);
            }
            let d = hex_digit_exec(self.chars[j]);
            if !too_large {
                let next = v * 16 + d;
                if next > 0x10FFFF {
                    too_large = true;
                } else {
                    v = next;
                }
            }
            j = j + 1;
        }
        if too_large {
            return (end, None);
        }
        match char_from_u32(v) {
            Some(c) => {
                assert(code_of(c) == v);
                assert(code_of(char_with_code(v as int)) == v as int);
                (end, Some(c))
            },
            None => (end, None),
        }
    }

    /// A string literal: its characters up to the closing quote, with
    /// escapes replaced by what they stand for.
    fn read_string(&mut self) -> (r: Result<Token, Error>)
        requires
            old(self).wf(),
            old(self).pos() < old(self).source().len(),
            old(self).source()[old(self).pos()] == '"',
        ensures
            final(self).wf(),
            final(self).source() == old(self).source(),
            (lexeme_of(r), final(self).pos()) == lex_at(old(self).source(), old(self).pos()),
            old(self).pos() < final(self).pos(),
    {
        let ghost cs = self.chars@;
        let s = self.pos;
        let mut i = s + 1;
        let mut acc: Vec<char> = Vec::new();
        loop
            invariant
                self.wf(),
                cs == self.chars@,
                cs == old(self).source(),
                self.pos == s,
                s == old(self).pos(),
                s < i <= cs.len(),
                cs[s as int] == '"',
                string_rest(cs, i as int, acc@) == string_rest(cs, s + 1, Seq::empty()),
            decreases cs.len() - i,
        {
            if i >= self.chars.len() {
                self.advance_to(i);
                return Err(self.error_here(ErrorKind::UnterminatedStr));
            }
            let c = self.chars[i];
            if c == '"' {
                let text = string_of(&acc);
                self.advance_to(i + 1);
                return Ok(Token::StrLiteral(text));
            }
            if c == '\\' {
                if i + 1 >= self.chars.len() {
                    self.advance_to(i);
                    let err = self.error_here(ErrorKind::TruncatedEscapeSequence);
                    self.advance_to(i + 1);
                    return Err(err);
                }
                let e = self.chars[i + 1];
                if e == 'u' {
                    let (end, named) = self.unicode_escape(i);
                    match named {
                        Some(ch) => {
                            acc.push(ch);
                            i = end;
                        },
                        None => {
                            let payload = self.text(i, end);
                            self.advance_to(i);
                            let err = self.error_here(ErrorKind::BadUnicodeEscape(payload));
                            self.advance_to(end);
                            return Err(err);
                        },
                    }
                } else {
                    let simple = if e == 'n' {
                        Some('\n')
                    } else if e == 't' {
                        Some('\t')
                    } else if e == '"' {
                        Some('"')
                    } else if e == '\\' {
                        Some('\\')
                    } else {
                        None
                    };
                    match simple {
                        Some(ch) => {
                            acc.push(ch);
                            i = i + 2;
                        },
                        None => {
                            let kind = if '!' <= e && e <= '~' {
                                ErrorKind::UnknownEscape(e)
                            } else {
                                ErrorKind::InvalidCharInEscape(e)
                            };
                            self.advance_to(i);
                            let err = self.error_here(kind);
                            self.advance_to(i + 2);
                            return Err(err);
                        },
                    }
                }
            } else {
                acc.push(c);
                i = i + 1;
            }
        }
    }

    /// A symbol of one or two characters at `s`.
    fn symbol(&self, s: usize) -> (r: Option<(Token, usize)>)
        requires
            self.wf(),
            s < self.chars@.len(),
        ensures
            r is None <==> symbol_at(self.chars@, s as int) is None,
            r matches Some((t, e)) ==> symbol_at(self.chars@, s as int) == Some((t, e as int)),
    {
        let c = self.chars[s];
        let eq_next = match self.char_at_exec(s + 1) {
            Some('=') => true,
            _ => false,
        };
        let (one, two) = if c == '+' {
            (
                Token::OperatorSymbol(OperatorSymbol::Plus),
                Token::AssignmentSymbol(AssignmentSymbol::PlusEq),
            )
        } else if c == '-' {
            (
                Token::OperatorSymbol(OperatorSymbol::Minus),
                Token::AssignmentSymbol(AssignmentSymbol::MinusEq),
            )
        } else if c == '*' {
            (
                Token::OperatorSymbol(OperatorSymbol::Asterisk),
                Token::AssignmentSymbol(AssignmentSymbol::TimesEq),
            )
        } else if c == '/' {
            (
                Token::OperatorSymbol(OperatorSymbol::Slash),
                Token::AssignmentSymbol(AssignmentSymbol::DivideEq),
            )
        } else if c == '=' {
            (
                Token::AssignmentSymbol(AssignmentSymbol::Eq),
                Token::ComparatorSymbol(ComparatorSymbol::EqualTo),
            )
        } else if c == '<' {
            (
                Token::ComparatorSymbol(ComparatorSymbol::LessThan),
                Token::ComparatorSymbol(ComparatorSymbol::LessThanOrEqualTo),
            )
        } else if c == '>' {
            (
                Token::ComparatorSymbol(ComparatorSymbol::GreaterThan),
                Token::ComparatorSymbol(ComparatorSymbol::GreaterThanOrEqualTo),
            )
        } else if c == '!' {
            if eq_next {
                return Some((Token::ComparatorSymbol(ComparatorSymbol::NotEqualTo), s + 2));
            } else {
                return Some((Token::Punctuation(Punctuation::Exclamation), s + 1));
            }
        } else {
            let single = if c == '\n' {
                Token::Newline
            } else if c == '(' {
                Token::LParen
            } else if c == ')' {
                Token::RParen
            } else if c == '{' {
                Token::LSquirly
            } else if c == '}' {
                Token::RSquirly
            } else if c == '[' {
                Token::LBracket
            } else if c == ']' {
                Token::RBracket
            } else if c == ',' {
                Token::Comma
            } else if c == ';' {
                Token::Semicolon
            } else if c == ':' {
                Token::Colon
            } else if c == '.' {
                Token::Dot
            } else {
                match punctuation(c) {
                    Some(p) => Token::Punctuation(p),
                    None => return None,
                }
            };
            return Some((single, s + 1));
        };
        if eq_next {
            Some((two, s + 2))
        } else {
            Some((one, s + 1))
        }
    }

    /// The token that starts at the cursor.
    fn lex_token(&mut self) -> (r: Result<Token, Error>)
        requires
            old(self).wf(),
            old(self).pos() < old(self).source().len(),
        ensures
            final(self).wf(),
            final(self).source() == old(self).source(),
            (lexeme_of(r), final(self).pos()) == lex_at(old(self).source(), old(self).pos()),
            old(self).pos() < final(self).pos(),
    {
        let s = self.pos;
        let c = self.chars[s];
        let slash_next = match self.char_at_exec(s + 1) {
            Some('/') => true,
            _ => false,
        };
        if c == '/' && slash_next {
            self.read_comment()
        } else if c == '"' {
            self.read_string()
        } else if '0' <= c && c <= '9' {
            self.read_numeric_literal()
        } else if ('a' <= c && c <= 'z') || ('A' <= c && c <= 'Z') || c == '_' {
            self.read_identifier()
        } else {
            match self.symbol(s) {
                Some((t, e)) => {
                    self.advance_to(e);
                    Ok(t)
                },
                None => {
                    let err = self.error_here(ErrorKind::UnknownStartOfToken(c));
                    self.advance_to(s + 1);
                    Err(err)
                },
            }
        }
    }

    /// The next token or lexical error after any whitespace; none once only
    /// whitespace is left. After an error, lexing goes on past the text
    /// that the failed token took.
    pub fn next(&mut self) -> (r: Option<Result<Token, Error>>)
        requires
            old(self).wf(),
        ensures
            final(self).wf(),
            final(self).source() == old(self).source(),
            match step(old(self).source(), old(self).pos()) {
                None => r is None && final(self).pos() == old(self).source().len(),
                Some((lx, e)) => r matches Some(x) && lexeme_of(x) == lx && final(self).pos() == e,
            },
            r is Some ==> old(self).pos() < final(self).pos(),
            r is Some ==> final(self).token_start() == location(
                old(self).source(),
                run_end(old(self).source(), old(self).pos(), CharClass::Blank),
            ),
    {
        let s = self.class_end(self.pos, CharClass::Blank);
        proof {
            lemma_run_end(self.chars@, self.pos as int, CharClass::Blank);
        }
        self.advance_to(s);
        if s >= self.chars.len() {
            return None;
        }
        let (row, col) = (self.row, self.col);
        let result = self.lex_token();
        self.start_row = row;
        self.start_col = col;
        Some(result)
    }

    /// The row and column where the last token or error that `next` gave
    /// begins.
    pub fn start(&self) -> (r: (usize, usize))
        ensures
            (r.0 as int, r.1 as int) == self.token_start(),
    {
        (self.start_row, self.start_col)
    }
}

/// The views of a sequence of lexer results.
pub open spec fn lexemes(rs: Seq<Result<Token, Error>>) -> Seq<Lexeme> {
    Seq::new(rs.len(), |k: int| lexeme_of(rs[k]))
}

/// Lexes the whole of `src`, errors included.
pub fn tokenize(src: &str) -> (r: Vec<Result<Token, Error>>)
    requires
        src@.len() < usize::MAX,
    ensures
        lexemes(r@) == lex_from(src@, 0),
{
    let mut tokens = Tokens::new(src);
    let mut out: Vec<Result<Token, Error>> = Vec::new();
    loop
        invariant
            tokens.wf(),
            tokens.source() == src@,
            0 <= tokens.pos() <= src@.len(),
            lexemes(out@) + lex_from(src@, tokens.pos()) == lex_from(src@, 0),
        decreases src@.len() - tokens.pos(),
    {
        let ghost before = tokens.pos();
        match tokens.next() {
            None => {
                assert(lexemes(out@) =~= lexemes(out@) + lex_from(src@, before));
                return out;
            },
            Some(x) => {
                proof {
                    let rest = lex_from(src@, tokens.pos());
                    assert(lex_from(src@, before) == seq![lexeme_of(x)] + rest);
                    assert(lexemes(out@.push(x)) =~= lexemes(out@).push(lexeme_of(x)));
                    assert(lexemes(out@).push(lexeme_of(x)) + rest =~= lexemes(out@) + (seq![
                        lexeme_of(x),
                    ] + rest));
                }
                out.push(x);
            },
        }
    }
}

/// Where each result of `lex_from(cs, i)` begins: the row and column of its
/// first character.
pub open spec fn starts_from(cs: Seq<char>, i: int) -> Seq<(int, int)>
    decreases cs.len() - i,
{
    match step(cs, i) {
        None => Seq::empty(),
        Some((_, e)) => {
            let here = location(cs, run_end(cs, i, CharClass::Blank));
            if i < e <= cs.len() {
                seq![here] + starts_from(cs, e)
            } else {
                seq![here]
            }
        },
    }
}

/// The views of lexer results paired with where they begin.
pub open spec fn located_lexemes(rs: Seq<(Result<Token, Error>, (usize, usize))>) -> Seq<Lexeme> {
    Seq::new(rs.len(), |k: int| lexeme_of(rs[k].0))
}

pub open spec fn located_starts(rs: Seq<(Result<Token, Error>, (usize, usize))>) -> Seq<
    (int, int),
> {
    Seq::new(rs.len(), |k: int| (rs[k].1.0 as int, rs[k].1.1 as int))
}

/// Lexes the whole of `src`, pairing each token or error with the row and
/// column where it begins.
pub fn tokenize_located(src: &str) -> (r: Vec<(Result<Token, Error>, (usize, usize))>)
    requires
        src@.len() < usize::MAX,
    ensures
        located_lexemes(r@) == lex_from(src@, 0),
        located_starts(r@) == starts_from(src@, 0),
{
    let mut tokens = Tokens::new(src);
    let mut out: Vec<(Result<Token, Error>, (usize, usize))> = Vec::new();
    loop
        invariant
            tokens.wf(),
            tokens.source() == src@,
            0 <= tokens.pos() <= src@.len(),
            located_lexemes(out@) + lex_from(src@, tokens.pos()) == lex_from(src@, 0),
            located_starts(out@) + starts_from(src@, tokens.pos()) == starts_from(src@, 0),
        decreases src@.len() - tokens.pos(),
    {
        let ghost before = tokens.pos();
        match tokens.next() {
            None => {
                assert(located_lexemes(out@) =~= located_lexemes(out@) + lex_from(src@, before));
                assert(located_starts(out@) =~= located_starts(out@) + starts_from(src@, before));
                return out;
            },
            Some(x) => {
                let at = tokens.start();
                let item = (x, at);
                proof {
                    let rest = lex_from(src@, tokens.pos());
                    let rest_at = starts_from(src@, tokens.pos());
                    let here = (at.0 as int, at.1 as int);
                    assert(lex_from(src@, before) == seq![lexeme_of(x)] + rest);
                    assert(starts_from(src@, before) == seq![here] + rest_at);
                    assert(located_lexemes(out@.push(item)) =~= located_lexemes(out@).push(
                        lexeme_of(x),
                    ));
                    assert(located_starts(out@.push(item)) =~= located_starts(out@).push(here));
                    assert(located_lexemes(out@).push(lexeme_of(x)) + rest =~= located_lexemes(
                        out@,
                    ) + (seq![lexeme_of(x)] + rest));
                    assert(located_starts(out@).push(here) + rest_at =~= located_starts(out@) + (
                    seq![here] + rest_at));
                }
                out.push(item);
            },
        }
    }
}

/// A run of decimal digits alone, whose value fits an `i64`, lexes to one
/// integer literal with that value.
pub proof fn law_digits_lex_to_their_value(d: Seq<char>)
    requires
        d.len() > 0,
        forall|k: int| 0 <= k < d.len() ==> is_digit(#[trigger] d[k]),
        decimal_value(d, 0, d.len() as int) <= i64::MAX,
    ensures
        lex_from(d, 0) == seq![
            Lexeme::Token(Token::I64Literal(decimal_value(d, 0, d.len() as int) as i64)),
        ],
{
    lemma_run_end(d, 0, CharClass::Digit);
    assert(run_end(d, 0, CharClass::Blank) == 0);
    assert(run_end(d, d.len() as int, CharClass::Blank) == d.len());
    assert(lex_from(d, d.len() as int) =~= Seq::<Lexeme>::empty());
    assert(lex_from(d, 0) =~= seq![
        Lexeme::Token(Token::I64Literal(decimal_value(d, 0, d.len() as int) as i64)),
    ] + lex_from(d, d.len() as int));
}

/// A name of letters, digits and underscores that starts with a letter or
/// an underscore, and is no reserved word, lexes to one identifier with
/// that text.
pub proof fn law_identifier_lexes_to_itself(w: Seq<char>)
    requires
        w.len() > 0,
        is_ident_start(w[0]),
        forall|k: int| 0 <= k < w.len() ==> is_ident_char(#[trigger] w[k]),
        keyword(w) is None,
    ensures
        lex_from(w, 0) == seq![Lexeme::Identifier(w)],
{
    lemma_run_end(w, 0, CharClass::Ident);
    assert(w.subrange(0, w.len() as int) =~= w);
    assert(run_end(w, 0, CharClass::Blank) == 0);
    assert(run_end(w, w.len() as int, CharClass::Blank) == w.len());
    assert(lex_from(w, w.len() as int) =~= Seq::<Lexeme>::empty());
    assert(lex_from(w, 0) =~= seq![Lexeme::Identifier(w)] + lex_from(w, w.len() as int));
}

/// Whether `c` can begin a token.
pub open spec fn starts_token(c: char) -> bool {
    c == '"' || is_digit(c) || is_ident_start(c) || symbol_at(seq![c], 0) is Some
}

/// Any single character lexes to at most one result, and to exactly one
/// unless it is whitespace; one that starts no token is an unknown start
/// of token at row 1, column 1.
pub proof fn law_single_char_lexes_safely(c: char)
    ensures
        lex_from(seq![c], 0).len() <= 1,
        !is_blank(c) ==> lex_from(seq![c], 0).len() == 1,
        !is_blank(c) && !starts_token(c) ==> lex_from(seq![c], 0) == seq![
            Lexeme::Fault(Fault::UnknownStartOfToken(c), 1, 1),
        ],
{
    let cs = seq![c];
    lemma_run_end(cs, 0, CharClass::Blank);
    assert(run_end(cs, 1, CharClass::Blank) == 1);
    assert(lex_from(cs, 1) =~= Seq::<Lexeme>::empty());
    if !is_blank(c) {
        assert(run_end(cs, 0, CharClass::Blank) == 0);
        let (lx, e) = lex_at(cs, 0);
        if c == '/' {
            assert(char_at(cs, 1) is None);
        }
        if c == '"' {
            assert(string_rest(cs, 1, Seq::empty()).1 == 1);
        }
        if is_digit(c) {
            lemma_run_end(cs, 0, CharClass::Digit);
        }
        if is_ident_start(c) {
            lemma_run_end(cs, 0, CharClass::Ident);
        }
        assert(e == 1);
        assert(lex_from(cs, 0) =~= seq![lx] + lex_from(cs, 1));
        assert(location(cs, 0) == (1int, 1int));
    } else {
        assert(run_end(cs, 0, CharClass::Blank) == 1);
    }
}

} // verus!
