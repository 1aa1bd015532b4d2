use fl_frontend::ast::{
    Assign, Binary, BinaryOperator, Call, Expr, FuncDef, FuncParam, Program, Statement,
    VarDeclaration, WhileLoop,
};
use fl_frontend::parser::Parser;
use fl_frontend::token::{AssignmentSymbol, ComparatorSymbol, OperatorSymbol, Token, Type};

#[test]
fn var_declaration() {
    let tokens = vec![
        Token::Type(Type::I64),
        Token::Identifier("x".to_string()),
        Token::AssignmentSymbol(AssignmentSymbol::Eq),
        Token::I64Literal(5),
        Token::Comma,
        Token::Identifier("a".to_string()),
        Token::Comma,
        Token::Identifier("m".to_string()),
        Token::AssignmentSymbol(AssignmentSymbol::Eq),
        Token::I64Literal(3),
    ];
    let expected = Some(Statement::VarDeclarations(vec![
        VarDeclaration {
            var_name: "x".to_string(),
            var_type: Type::I64,
            var_value: Some(Expr::I64Literal(5)),
        },
        VarDeclaration {
            var_name: "a".to_string(),
            var_type: Type::I64,
            var_value: None,
        },
        VarDeclaration {
            var_name: "m".to_string(),
            var_type: Type::I64,
            var_value: Some(Expr::I64Literal(3)),
        },
    ]));

    let mut parser = Parser::new(&tokens);
    let ast = parser.parse_statement();

    assert_eq!(Ok(expected), ast);
}

#[test]
fn var_modification() {
    let tokens = vec![
        Token::Identifier("num".to_string()),
        Token::AssignmentSymbol(AssignmentSymbol::Eq),
        Token::Identifier("a".to_string()),
        Token::AssignmentSymbol(AssignmentSymbol::Eq),
        Token::I64Literal(10),
    ];
    let expected = Some(Statement::Expr(Expr::Assign(Assign {
        name: "num".to_string(),
        value: Box::new(Expr::Assign(Assign {
            name: "a".to_string(),
            value: Box::new(Expr::I64Literal(10)),
        })),
    })));

    let mut parser = Parser::new(&tokens);
    let ast = parser.parse_statement();

    assert_eq!(Ok(expected), ast);
}

#[test]
fn empty_while_loop() {
    let tokens = vec![
        Token::While,
        Token::Identifier("i".to_string()),
        Token::ComparatorSymbol(ComparatorSymbol::LessThanOrEqualTo),
        Token::Identifier("N".to_string()),
        Token::LSquirly,
        Token::RSquirly,
    ];
    let expected = Some(Statement::WhileLoop(WhileLoop {
        condition: Expr::Binary(Binary {
            left: Box::new(Expr::Identifier("i".to_string())),
            operator: BinaryOperator::LessOrEqualTo,
            right: Box::new(Expr::Identifier("N".to_string())),
        }),
        body: vec![],
    }));

    let mut parser = Parser::new(&tokens);
    let ast = parser.parse_statement();

    assert_eq!(Ok(expected), ast);
}

#[test]
fn order_of_operations() {
    let tokens = vec![
        Token::I64Literal(10),
        Token::OperatorSymbol(OperatorSymbol::Plus),
        Token::I64Literal(3),
        Token::OperatorSymbol(OperatorSymbol::Asterisk),
        Token::I64Literal(8),
        Token::OperatorSymbol(OperatorSymbol::Slash),
        Token::I64Literal(4),
        Token::OperatorSymbol(OperatorSymbol::Minus),
        Token::I64Literal(13),
        Token::OperatorSymbol(OperatorSymbol::Plus),
        Token::I64Literal(5),
    ];
    let expected = Some(Statement::Expr(Expr::Binary(Binary {
        left: Box::new(Expr::Binary(Binary {
            left: Box::new(Expr::Binary(Binary {
                left: Box::new(Expr::I64Literal(10)),
                operator: BinaryOperator::Add,
                right: Box::new(Expr::Binary(Binary {
                    left: Box::new(Expr::Binary(Binary {
                        left: Box::new(Expr::I64Literal(3)),
                        operator: BinaryOperator::Multiply,
                        right: Box::new(Expr::I64Literal(8)),
                    })),
                    operator: BinaryOperator::Divide,
                    right: Box::new(Expr::I64Literal(4)),
                })),
            })),
            operator: BinaryOperator::Subtract,
            right: Box::new(Expr::I64Literal(13)),
        })),
        operator: BinaryOperator::Add,
        right: Box::new(Expr::I64Literal(5)),
    })));

    let mut parser = Parser::new(&tokens);
    let ast = parser.parse_statement();

    assert_eq!(Ok(expected), ast);
}

#[test]
fn parenthetical_expression() {
    let tokens = vec![
        Token::I64Literal(9),
        Token::OperatorSymbol(OperatorSymbol::Asterisk),
        Token::LParen,
        Token::I64Literal(2),
        Token::OperatorSymbol(OperatorSymbol::Plus),
        Token::I64Literal(3),
        Token::RParen,
    ];
    let expected = Some(Statement::Expr(Expr::Binary(Binary {
        left: Box::new(Expr::I64Literal(9)),
        operator: BinaryOperator::Multiply,
        right: Box::new(Expr::Binary(Binary {
            left: Box::new(Expr::I64Literal(2)),
            operator: BinaryOperator::Add,
            right: Box::new(Expr::I64Literal(3)),
        })),
    })));

    let mut parser = Parser::new(&tokens);
    let ast = parser.parse_statement();

    assert_eq!(Ok(expected), ast);
}

#[test]
fn spacing() {
    let tokens = vec![
        Token::Newline,
        Token::Newline,
        Token::Newline,
        Token::Identifier("a".to_string()),
        Token::Newline,
        Token::Newline,
    ];
    let expected = Some(Statement::Expr(Expr::Identifier("a".to_string())));

    let mut parser = Parser::new(&tokens);
    let ast = parser.parse_statement();

    assert_eq!(Ok(expected), ast);
}

#[test]
fn function_call() {
    let tokens = vec![
        Token::Identifier("print".to_string()),
        Token::LParen,
        Token::Identifier("f".to_string()),
        Token::LParen,
        Token::I64Literal(1),
        Token::RParen,
        Token::Comma,
        Token::I64Literal(10),
        Token::Comma,
        Token::I64Literal(20),
        Token::RParen,
    ];
    let expected = Some(Statement::Expr(Expr::Call(Call {
        function_name: "print".to_string(),
        args: vec![
            Expr::Call(Call {
                function_name: "f".to_string(),
                args: vec![Expr::I64Literal(1)],
            }),
            Expr::I64Literal(10),
            Expr::I64Literal(20),
        ],
    })));

    let mut parser = Parser::new(&tokens);
    let ast = parser.parse_statement();

    assert_eq!(Ok(expected), ast);
}

#[test]
fn function_definition() {
    let tokens = vec![
        Token::Fn,
        Token::Identifier("test".to_string()),
        Token::LParen,
        Token::Type(Type::I64),
        Token::Identifier("a".to_string()),
        Token::RParen,
        Token::Type(Type::I64),
        Token::LSquirly,
        Token::RSquirly,
    ];
    let expected = Program {
        func_defs: vec![FuncDef {
            name: "test".to_string(),
            params: vec![FuncParam {
                param_type: Type::I64,
                param_name: "a".to_string(),
            }],
            return_type: Type::I64,
            body: vec![],
        }],
    };

    let mut parser = Parser::new(&tokens);
    let ast = parser.parse_program();

    assert_eq!(Ok(expected), ast);
}

#[test]
fn return_statement() {
    let tokens = vec![
        Token::Ret,
        Token::Identifier("x".to_string()),
        Token::OperatorSymbol(OperatorSymbol::Plus),
        Token::I64Literal(5),
    ];
    let expected = Some(Statement::Return(Some(Expr::Binary(Binary {
        left: Box::new(Expr::Identifier("x".to_string())),
        operator: BinaryOperator::Add,
        right: Box::new(Expr::I64Literal(5)),
    }))));

    let mut parser = Parser::new(&tokens);
    let ast = parser.parse_statement();

    assert_eq!(Ok(expected), ast);
}

#[test]
fn plus_eq() {
    let tokens = vec![
        Token::Identifier("x".to_string()),
        Token::AssignmentSymbol(AssignmentSymbol::PlusEq),
        Token::I64Literal(5),
    ];
    let expected = Some(Statement::Expr(Expr::Assign(Assign {
        name: "x".to_string(),
        value: Box::new(Expr::Binary(Binary {
            left: Box::new(Expr::Identifier("x".to_string())),
            operator: BinaryOperator::Add,
            right: Box::new(Expr::I64Literal(5)),
        })),
    })));

    let mut parser = Parser::new(&tokens);
    let ast = parser.parse_statement();

    assert_eq!(Ok(expected), ast);
}
