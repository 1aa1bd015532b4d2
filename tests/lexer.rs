use fl_frontend::error::{Error, ErrorKind};
use fl_frontend::lexer::{tokenize, tokenize_located, Tokens};
use fl_frontend::token::{
    AssignmentSymbol, ComparatorSymbol, OperatorSymbol, Punctuation, Token, Type,
};

fn err(row: usize, col: usize, kind: ErrorKind) -> Result<Token, Error> {
    Err(Error::new((row, col), kind))
}

#[test]
fn digits_lex_to_one_integer() {
    assert_eq!(tokenize("12345"), vec![Ok(Token::I64Literal(12345))]);
    assert_eq!(tokenize("0"), vec![Ok(Token::I64Literal(0))]);
    assert_eq!(
        tokenize("9223372036854775807"),
        vec![Ok(Token::I64Literal(i64::MAX))]
    );
}

#[test]
fn integer_too_large_is_an_error() {
    assert_eq!(
        tokenize("9223372036854775808"),
        vec![err(1, 1, ErrorKind::InvalidFloat("9223372036854775808".to_string()))]
    );
}

#[test]
fn float_forms_are_rejected() {
    assert_eq!(
        tokenize("12.5"),
        vec![
            err(1, 1, ErrorKind::InvalidFloat("12.".to_string())),
            Ok(Token::I64Literal(5)),
        ]
    );
    assert_eq!(
        tokenize("3e"),
        vec![err(1, 1, ErrorKind::InvalidFloat("3e".to_string()))]
    );
}

#[test]
fn identifiers_lex_to_themselves() {
    for name in ["x", "_", "foo_bar9", "A1", "fnord", "i65"] {
        assert_eq!(tokenize(name), vec![Ok(Token::Identifier(name.to_string()))]);
    }
}

#[test]
fn keywords() {
    assert_eq!(
        tokenize("fn while ret i64"),
        vec![
            Ok(Token::Fn),
            Ok(Token::While),
            Ok(Token::Ret),
            Ok(Token::Type(Type::I64)),
        ]
    );
}

#[test]
fn unknown_single_characters() {
    for c in ['`', 'é', '\u{0}', '\u{1F600}'] {
        let src = c.to_string();
        assert_eq!(
            tokenize(&src),
            vec![err(1, 1, ErrorKind::UnknownStartOfToken(c))]
        );
    }
}

#[test]
fn every_single_character_lexes_to_at_most_one_result() {
    for code in 0u32..0x3000 {
        if let Some(c) = char::from_u32(code) {
            let src = c.to_string();
            assert!(tokenize(&src).len() <= 1);
        }
    }
}

#[test]
fn symbols() {
    assert_eq!(
        tokenize("+ += - -= * *= / /= = == != < <= > >= ( ) { } [ ] , ; : ."),
        vec![
            Ok(Token::OperatorSymbol(OperatorSymbol::Plus)),
            Ok(Token::AssignmentSymbol(AssignmentSymbol::PlusEq)),
            Ok(Token::OperatorSymbol(OperatorSymbol::Minus)),
            Ok(Token::AssignmentSymbol(AssignmentSymbol::MinusEq)),
            Ok(Token::OperatorSymbol(OperatorSymbol::Asterisk)),
            Ok(Token::AssignmentSymbol(AssignmentSymbol::TimesEq)),
            Ok(Token::OperatorSymbol(OperatorSymbol::Slash)),
            Ok(Token::AssignmentSymbol(AssignmentSymbol::DivideEq)),
            Ok(Token::AssignmentSymbol(AssignmentSymbol::Eq)),
            Ok(Token::ComparatorSymbol(ComparatorSymbol::EqualTo)),
            Ok(Token::ComparatorSymbol(ComparatorSymbol::NotEqualTo)),
            Ok(Token::ComparatorSymbol(ComparatorSymbol::LessThan)),
            Ok(Token::ComparatorSymbol(ComparatorSymbol::LessThanOrEqualTo)),
            Ok(Token::ComparatorSymbol(ComparatorSymbol::GreaterThan)),
            Ok(Token::ComparatorSymbol(ComparatorSymbol::GreaterThanOrEqualTo)),
            Ok(Token::LParen),
            Ok(Token::RParen),
            Ok(Token::LSquirly),
            Ok(Token::RSquirly),
            Ok(Token::LBracket),
            Ok(Token::RBracket),
            Ok(Token::Comma),
            Ok(Token::Semicolon),
            Ok(Token::Colon),
            Ok(Token::Dot),
        ]
    );
}

#[test]
fn newlines_are_tokens_and_blanks_are_not() {
    assert_eq!(
        tokenize(" a \t\n\r b\n"),
        vec![
            Ok(Token::Identifier("a".to_string())),
            Ok(Token::Newline),
            Ok(Token::Identifier("b".to_string())),
            Ok(Token::Newline),
        ]
    );
    assert_eq!(tokenize(""), vec![]);
    assert_eq!(tokenize("  \t "), vec![]);
}

#[test]
fn comments_and_docstrings() {
    assert_eq!(
        tokenize("// note\n/// doc\nx"),
        vec![
            Ok(Token::Comment(" note".to_string())),
            Ok(Token::Newline),
            Ok(Token::Docstring(" doc".to_string())),
            Ok(Token::Newline),
            Ok(Token::Identifier("x".to_string())),
        ]
    );
}

#[test]
fn string_literals_and_escapes() {
    assert_eq!(
        tokenize(r#""a\nb\t\"\\c""#),
        vec![Ok(Token::StrLiteral("a\nb\t\"\\c".to_string()))]
    );
    assert_eq!(
        tokenize(r#""\u{41}\u{1F600}""#),
        vec![Ok(Token::StrLiteral("A\u{1F600}".to_string()))]
    );
}

#[test]
fn string_errors() {
    assert_eq!(
        tokenize(r#""\u{110000}""#),
        vec![
            err(1, 2, ErrorKind::BadUnicodeEscape(r"\u{110000}".to_string())),
            err(1, 13, ErrorKind::UnterminatedStr),
        ]
    );
    assert_eq!(
        tokenize(r#""\u41""#),
        vec![
            err(1, 2, ErrorKind::BadUnicodeEscape(r"\u".to_string())),
            Ok(Token::I64Literal(41)),
            err(1, 7, ErrorKind::UnterminatedStr),
        ]
    );
    assert_eq!(
        tokenize(r#""\q""#),
        vec![
            err(1, 2, ErrorKind::UnknownEscape('q')),
            err(1, 5, ErrorKind::UnterminatedStr),
        ]
    );
    assert_eq!(
        tokenize("\"\\\u{7}\""),
        vec![
            err(1, 2, ErrorKind::InvalidCharInEscape('\u{7}')),
            err(1, 5, ErrorKind::UnterminatedStr),
        ]
    );
    assert_eq!(
        tokenize("\"ab\\"),
        vec![err(1, 4, ErrorKind::TruncatedEscapeSequence)]
    );
    assert_eq!(
        tokenize("\"abc"),
        vec![err(1, 5, ErrorKind::UnterminatedStr)]
    );
}

#[test]
fn errors_carry_row_and_column_and_lexing_goes_on() {
    assert_eq!(
        tokenize("x\n  ` y"),
        vec![
            Ok(Token::Identifier("x".to_string())),
            Ok(Token::Newline),
            err(2, 3, ErrorKind::UnknownStartOfToken('`')),
            Ok(Token::Identifier("y".to_string())),
        ]
    );
}

#[test]
fn tokens_one_call_at_a_time() {
    let mut tokens = Tokens::new("a 1");
    assert_eq!(tokens.next(), Some(Ok(Token::Identifier("a".to_string()))));
    assert_eq!(tokens.next(), Some(Ok(Token::I64Literal(1))));
    assert_eq!(tokens.next(), None);
    assert_eq!(tokens.next(), None);
}

#[test]
fn error_new_keeps_location_and_kind() {
    let e = Error::new((3, 7), ErrorKind::UnterminatedStr);
    assert_eq!(e.row, 3);
    assert_eq!(e.col, 7);
    assert_eq!(e.kind, ErrorKind::UnterminatedStr);
}

#[test]
fn punctuation_marks() {
    assert_eq!(
        tokenize("& @ \\ ^ $ ! # % | ? ' ~"),
        vec![
            Ok(Token::Punctuation(Punctuation::Ampersand)),
            Ok(Token::Punctuation(Punctuation::At)),
            Ok(Token::Punctuation(Punctuation::Backslash)),
            Ok(Token::Punctuation(Punctuation::Caret)),
            Ok(Token::Punctuation(Punctuation::Dollar)),
            Ok(Token::Punctuation(Punctuation::Exclamation)),
            Ok(Token::Punctuation(Punctuation::Hashtag)),
            Ok(Token::Punctuation(Punctuation::Percent)),
            Ok(Token::Punctuation(Punctuation::Pipe)),
            Ok(Token::Punctuation(Punctuation::Question)),
            Ok(Token::Punctuation(Punctuation::SingleQuote)),
            Ok(Token::Punctuation(Punctuation::Tilde)),
        ]
    );
    assert_eq!(
        tokenize("!x"),
        vec![
            Ok(Token::Punctuation(Punctuation::Exclamation)),
            Ok(Token::Identifier("x".to_string())),
        ]
    );
}

#[test]
fn error_messages() {
    let cases = [
        (ErrorKind::BadUnicodeEscape(r"\u{110000}".to_string()), r"bad unicode escape sequence '\u{110000}'"),
        (ErrorKind::InvalidCharInEscape('\t'), "invalid character in escape sequence: '\t'"),
        (ErrorKind::InvalidFloat("1.".to_string()), "invalid float literal '1.'"),
        (ErrorKind::TruncatedEscapeSequence, "escape sequence is too short"),
        (ErrorKind::UnknownEscape('q'), "unknown escape 'q'"),
        (ErrorKind::UnknownStartOfToken('`'), "unknown start of token (U+0060)"),
        (ErrorKind::UnknownStartOfToken('\u{0}'), "unknown start of token (U+0000)"),
        (ErrorKind::UnknownStartOfToken('é'), "unknown start of token (U+00E9)"),
        (ErrorKind::UnknownStartOfToken('\u{1F600}'), "unknown start of token (U+1F600)"),
        (ErrorKind::UnknownStartOfToken('\u{10FFFF}'), "unknown start of token (U+10FFFF)"),
        (ErrorKind::UnterminatedStr, "unterminated string literal"),
    ];
    for (kind, text) in cases {
        assert_eq!(kind.message(), text);
    }
}

#[test]
fn tokens_carry_where_they_begin() {
    assert_eq!(
        tokenize_located("fn f() {\n  x = 10\n}"),
        vec![
            (Ok(Token::Fn), (1, 1)),
            (Ok(Token::Identifier("f".to_string())), (1, 4)),
            (Ok(Token::LParen), (1, 5)),
            (Ok(Token::RParen), (1, 6)),
            (Ok(Token::LSquirly), (1, 8)),
            (Ok(Token::Newline), (1, 9)),
            (Ok(Token::Identifier("x".to_string())), (2, 3)),
            (Ok(Token::AssignmentSymbol(AssignmentSymbol::Eq)), (2, 5)),
            (Ok(Token::I64Literal(10)), (2, 7)),
            (Ok(Token::Newline), (2, 9)),
            (Ok(Token::RSquirly), (3, 1)),
        ]
    );
    let mut tokens = Tokens::new("  ab");
    assert_eq!(tokens.next(), Some(Ok(Token::Identifier("ab".to_string()))));
    assert_eq!(tokens.start(), (1, 3));
}
