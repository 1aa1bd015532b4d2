use fl_frontend::ast::{Assign, Binary, BinaryOperator, Expr, FuncDef, Program, Statement};
use fl_frontend::error::{Expected, ParseError};
use fl_frontend::lexer::tokenize;
use fl_frontend::parser::Parser;
use fl_frontend::token::{AssignmentSymbol, ComparatorSymbol, OperatorSymbol, Token, Type};

fn ident(s: &str) -> Token {
    Token::Identifier(s.to_string())
}

fn lex(src: &str) -> Vec<Token> {
    tokenize(src).into_iter().map(|t| t.unwrap()).collect()
}

#[test]
fn chained_comparison_is_rejected() {
    let tokens = vec![
        ident("i"),
        Token::ComparatorSymbol(ComparatorSymbol::LessThanOrEqualTo),
        ident("N"),
        Token::ComparatorSymbol(ComparatorSymbol::LessThanOrEqualTo),
        ident("M"),
    ];
    let mut parser = Parser::new(&tokens);
    assert_eq!(
        parser.parse_statement(),
        Err(ParseError {
            expected: Expected::NoChainedComparison,
            found: Some(Token::ComparatorSymbol(ComparatorSymbol::LessThanOrEqualTo)),
            position: 3,
        })
    );
}

#[test]
fn bare_return_has_no_value() {
    for end in [Token::Newline, Token::Semicolon] {
        let tokens = vec![Token::Ret, end];
        let mut parser = Parser::new(&tokens);
        assert_eq!(parser.parse_statement(), Ok(Some(Statement::Return(None))));
    }
    let tokens = vec![Token::Ret];
    let mut parser = Parser::new(&tokens);
    assert_eq!(parser.parse_statement(), Ok(Some(Statement::Return(None))));
}

#[test]
fn compound_assignment_equals_its_expansion() {
    let compound = lex("x += 5");
    let expanded = lex("x = x + 5");
    let a = Parser::new(&compound).parse_statement();
    let b = Parser::new(&expanded).parse_statement();
    assert_eq!(a, b);
    assert_eq!(
        a,
        Ok(Some(Statement::Expr(Expr::Assign(Assign {
            name: "x".to_string(),
            value: Box::new(Expr::Binary(Binary {
                left: Box::new(Expr::Identifier("x".to_string())),
                operator: BinaryOperator::Add,
                right: Box::new(Expr::I64Literal(5)),
            })),
        }))))
    );
}

#[test]
fn other_compound_assignments() {
    let cases = [
        (AssignmentSymbol::MinusEq, BinaryOperator::Subtract),
        (AssignmentSymbol::TimesEq, BinaryOperator::Multiply),
        (AssignmentSymbol::DivideEq, BinaryOperator::Divide),
    ];
    for (symbol, operator) in cases {
        let tokens = vec![ident("y"), Token::AssignmentSymbol(symbol), Token::I64Literal(2)];
        let mut parser = Parser::new(&tokens);
        assert_eq!(
            parser.parse_statement(),
            Ok(Some(Statement::Expr(Expr::Assign(Assign {
                name: "y".to_string(),
                value: Box::new(Expr::Binary(Binary {
                    left: Box::new(Expr::Identifier("y".to_string())),
                    operator,
                    right: Box::new(Expr::I64Literal(2)),
                })),
            }))))
        );
    }
}

#[test]
fn nested_function_is_rejected() {
    let tokens = lex("fn f() {\nfn g() {}\n}");
    let mut parser = Parser::new(&tokens);
    assert_eq!(
        parser.parse_program(),
        Err(ParseError {
            expected: Expected::NoNestedFunction,
            found: Some(Token::Fn),
            position: 6,
        })
    );
}

#[test]
fn missing_return_type_is_rejected() {
    let tokens = lex("fn f() x {}");
    let mut parser = Parser::new(&tokens);
    assert_eq!(
        parser.parse_program(),
        Err(ParseError {
            expected: Expected::ReturnType("f".to_string()),
            found: Some(ident("x")),
            position: 4,
        })
    );
}

#[test]
fn unclosed_body_is_rejected() {
    let tokens = lex("fn f() {\nx\n");
    let mut parser = Parser::new(&tokens);
    assert_eq!(
        parser.parse_program(),
        Err(ParseError {
            expected: Expected::Token(Token::RSquirly),
            found: None,
            position: 8,
        })
    );
}

#[test]
fn statement_needs_an_end() {
    let tokens = vec![ident("a"), ident("b")];
    let mut parser = Parser::new(&tokens);
    assert_eq!(
        parser.parse_statement(),
        Err(ParseError {
            expected: Expected::StatementEnd,
            found: Some(ident("b")),
            position: 1,
        })
    );
}

#[test]
fn missing_operand_is_rejected() {
    let tokens = vec![Token::I64Literal(1), Token::OperatorSymbol(OperatorSymbol::Plus)];
    let mut parser = Parser::new(&tokens);
    assert_eq!(
        parser.parse_statement(),
        Err(ParseError { expected: Expected::Operand, found: None, position: 2 })
    );
}

#[test]
fn bad_argument_separator_is_rejected() {
    let tokens = vec![ident("f"), Token::LParen, Token::I64Literal(1), Token::Semicolon];
    let mut parser = Parser::new(&tokens);
    assert_eq!(
        parser.parse_statement(),
        Err(ParseError {
            expected: Expected::CommaOrRParen,
            found: Some(Token::Semicolon),
            position: 3,
        })
    );
}

#[test]
fn top_level_must_be_function() {
    let tokens = lex("x = 1");
    let mut parser = Parser::new(&tokens);
    assert_eq!(
        parser.parse_program(),
        Err(ParseError { expected: Expected::FuncDef, found: Some(ident("x")), position: 0 })
    );
}

#[test]
fn empty_input_is_an_empty_program() {
    let tokens: Vec<Token> = vec![];
    assert_eq!(Parser::new(&tokens).parse_program(), Ok(Program { func_defs: vec![] }));
    assert_eq!(Parser::new(&tokens).parse_statement(), Ok(None));
}

#[test]
fn whole_program_from_source() {
    let src = "/// entry\nfn main() {\n  i64 x = 1, y\n  while x < 10 {\n    x += 1\n  }\n  ret x\n}\n";
    let tokens = lex(src);
    let mut parser = Parser::new(&tokens);
    let program = parser.parse_program().unwrap();
    assert_eq!(program.func_defs.len(), 1);
    let main: &FuncDef = &program.func_defs[0];
    assert_eq!(main.name, "main");
    assert_eq!(main.return_type, Type::Void);
    assert_eq!(main.params, vec![]);
    assert_eq!(main.body.len(), 3);
    assert_eq!(
        main.body[2],
        Statement::Return(Some(Expr::Identifier("x".to_string())))
    );
}
