//! The grammar of the language as spec functions over a token sequence.
//!
//! Each rule reads the tokens from a position and gives either the value it
//! recognised and the position after it, or the syntax error at the place
//! where it stopped. Every rule that succeeds consumes at least one token;
//! the guards `advances(..)` below only keep the definitions well-founded.
use vstd::prelude::*;
use crate::ast::{
    operator_of_arith, operator_of_assignment, operator_of_comparator, ExprV, FuncDefV,
    FuncParamV, ProgramV, StatementV, VarDeclarationV,
};
use crate::error::{Expected, ParseError};
use crate::token::{AssignmentSymbol, ComparatorSymbol, OperatorSymbol, Token, Type};

verus! {

pub type Parsed<T> = Result<(T, int), ParseError>;

/// The token at `i`, if there is one.
pub open spec fn tok(ts: Seq<Token>, i: int) -> Option<Token> {
    if 0 <= i < ts.len() {
        Some(ts[i])
    } else {
        None
    }
}

pub open spec fn error_at(ts: Seq<Token>, i: int, expected: Expected) -> ParseError {
    ParseError { expected, found: tok(ts, i), position: i as usize }
}

/// A rule that started at `p` stopped at `q`, after at least one token.
pub open spec fn advances(ts: Seq<Token>, p: int, q: int) -> bool {
    p < q <= ts.len()
}

/// What an assignment to `name` with symbol `s` stores, given the parsed
/// right-hand side: compound symbols combine the old value with it.
pub open spec fn assigned_value(name: Seq<char>, s: AssignmentSymbol, rhs: ExprV) -> ExprV {
    match operator_of_assignment(s) {
        None => rhs,
        Some(op) => ExprV::Binary(Box::new(ExprV::Identifier(name)), op, Box::new(rhs)),
    }
}

/// expression := identifier assignment-symbol expression | comparison
pub open spec fn expr_at(ts: Seq<Token>, pos: int) -> Parsed<ExprV>
    decreases ts.len() - pos, 7int,
{
    match (tok(ts, pos), tok(ts, pos + 1)) {
        (Some(Token::Identifier(name)), Some(Token::AssignmentSymbol(s))) => {
            match expr_at(ts, pos + 2) {
                Ok((rhs, q)) => Ok(
                    (ExprV::Assign(name@, Box::new(assigned_value(name@, s, rhs))), q),
                ),
                Err(e) => Err(e),
            }
        },
        _ => comparison_at(ts, pos),
    }
}

/// comparison := sum [comparator sum], where no second comparator follows.
pub open spec fn comparison_at(ts: Seq<Token>, pos: int) -> Parsed<ExprV>
    decreases ts.len() - pos, 6int,
{
    match sum_at(ts, pos) {
        Ok((left, p)) => {
            if !advances(ts, pos, p) {
                Ok((left, p))
            } else {
                match tok(ts, p) {
                    Some(Token::ComparatorSymbol(c)) => match sum_at(ts, p + 1) {
                        Ok((right, q)) => match tok(ts, q) {
                            Some(Token::ComparatorSymbol(_)) => Err(
                                error_at(ts, q, Expected::NoChainedComparison),
                            ),
                            _ => Ok(
                                (
                                    ExprV::Binary(
                                        Box::new(left),
                                        operator_of_comparator(c),
                                        Box::new(right),
                                    ),
                                    q,
                                ),
                            ),
                        },
                        Err(e) => Err(e),
                    },
                    _ => Ok((left, p)),
                }
            }
        },
        Err(e) => Err(e),
    }
}

/// sum := product {(`+` | `-`) product}, grouped to the left.
pub open spec fn sum_at(ts: Seq<Token>, pos: int) -> Parsed<ExprV>
    decreases ts.len() - pos, 5int,
{
    match product_at(ts, pos) {
        Ok((left, p)) => {
            if !advances(ts, pos, p) {
                Ok((left, p))
            } else {
                sum_rest(ts, p, left)
            }
        },
        Err(e) => Err(e),
    }
}

pub open spec fn is_additive(s: OperatorSymbol) -> bool {
    s == OperatorSymbol::Plus || s == OperatorSymbol::Minus
}

/// The rest of a sum whose terms up to `pos` make `acc`.
pub open spec fn sum_rest(ts: Seq<Token>, pos: int, acc: ExprV) -> Parsed<ExprV>
    decreases ts.len() - pos, 4int,
{
    match tok(ts, pos) {
        Some(Token::OperatorSymbol(s)) => {
            if is_additive(s) {
                match product_at(ts, pos + 1) {
                    Ok((right, q)) => {
                        if !advances(ts, pos, q) {
                            Ok((acc, pos))
                        } else {
                            sum_rest(
                                ts,
                                q,
                                ExprV::Binary(Box::new(acc), operator_of_arith(s), Box::new(right)),
                            )
                        }
                    },
                    Err(e) => Err(e),
                }
            } else {
                Ok((acc, pos))
            }
        },
        _ => Ok((acc, pos)),
    }
}

/// product := primary {(`*` | `/`) primary}, grouped to the left.
pub open spec fn product_at(ts: Seq<Token>, pos: int) -> Parsed<ExprV>
    decreases ts.len() - pos, 3int,
{
    match primary_at(ts, pos) {
        Ok((left, p)) => {
            if !advances(ts, pos, p) {
                Ok((left, p))
            } else {
                product_rest(ts, p, left)
            }
        },
        Err(e) => Err(e),
    }
}

pub open spec fn is_multiplicative(s: OperatorSymbol) -> bool {
    s == OperatorSymbol::Asterisk || s == OperatorSymbol::Slash
}

/// The rest of a product whose factors up to `pos` make `acc`.
pub open spec fn product_rest(ts: Seq<Token>, pos: int, acc: ExprV) -> Parsed<ExprV>
    decreases ts.len() - pos, 2int,
{
    match tok(ts, pos) {
        Some(Token::OperatorSymbol(s)) => {
            if is_multiplicative(s) {
                match primary_at(ts, pos + 1) {
                    Ok((right, q)) => {
                        if !advances(ts, pos, q) {
                            Ok((acc, pos))
                        } else {
                            product_rest(
                                ts,
                                q,
                                ExprV::Binary(Box::new(acc), operator_of_arith(s), Box::new(right)),
                            )
                        }
                    },
                    Err(e) => Err(e),
                }
            } else {
                Ok((acc, pos))
            }
        },
        _ => Ok((acc, pos)),
    }
}

/// primary := `(` expression `)` | identifier `(` arguments | identifier | integer
pub open spec fn primary_at(ts: Seq<Token>, pos: int) -> Parsed<ExprV>
    decreases ts.len() - pos, 1int,
{
    match tok(ts, pos) {
        Some(Token::LParen) => match expr_at(ts, pos + 1) {
            Ok((e, q)) => match tok(ts, q) {
                Some(Token::RParen) => Ok((e, q + 1)),
                _ => Err(error_at(ts, q, Expected::Token(Token::RParen))),
            },
            Err(err) => Err(err),
        },
        Some(Token::Identifier(name)) => match tok(ts, pos + 1) {
            Some(Token::LParen) => match args_at(ts, pos + 2) {
                Ok((args, q)) => Ok((ExprV::Call(name@, args), q)),
                Err(e) => Err(e),
            },
            _ => Ok((ExprV::Identifier(name@), pos + 1)),
        },
        Some(Token::I64Literal(v)) => Ok((ExprV::I64Literal(v), pos + 1)),
        _ => Err(error_at(ts, pos, Expected::Operand)),
    }
}

/// The arguments of a call, from just after its `(` through the closing `)`.
pub open spec fn args_at(ts: Seq<Token>, pos: int) -> Parsed<Seq<ExprV>>
    decreases ts.len() - pos, 9int,
{
    match tok(ts, pos) {
        Some(Token::RParen) => Ok((Seq::empty(), pos + 1)),
        _ => args_rest(ts, pos, Seq::empty()),
    }
}

/// The arguments of a call from `pos` on, after the ones in `acc`, through
/// the closing `)`.
pub open spec fn args_rest(ts: Seq<Token>, pos: int, acc: Seq<ExprV>) -> Parsed<Seq<ExprV>>
    decreases ts.len() - pos, 8int,
{
    match expr_at(ts, pos) {
        Ok((e, q)) => {
            if !advances(ts, pos, q) {
                Ok((acc, pos))
            } else {
                match tok(ts, q) {
                    Some(Token::RParen) => Ok((acc.push(e), q + 1)),
                    Some(Token::Comma) => args_rest(ts, q + 1, acc.push(e)),
                    _ => Err(error_at(ts, q, Expected::CommaOrRParen)),
                }
            }
        },
        Err(err) => Err(err),
    }
}

/// Newlines, comments and docstrings, which may stand before any statement
/// or definition.
pub open spec fn is_trivia(t: Token) -> bool {
    t is Newline || t is Comment || t is Docstring
}

/// The first position from `pos` on that holds no newline, comment or
/// docstring.
pub open spec fn skip_trivia(ts: Seq<Token>, pos: int) -> int
    decreases ts.len() - pos,
{
    match tok(ts, pos) {
        Some(t) => if is_trivia(t) {
            skip_trivia(ts, pos + 1)
        } else {
            pos
        },
        None => pos,
    }
}

pub proof fn lemma_skip_trivia(ts: Seq<Token>, pos: int)
    requires
        0 <= pos <= ts.len(),
    ensures
        pos <= skip_trivia(ts, pos) <= ts.len(),
        skip_trivia(ts, pos) < ts.len() ==> !is_trivia(ts[skip_trivia(ts, pos)]),
    decreases ts.len() - pos,
{
    if pos < ts.len() && is_trivia(ts[pos]) {
        lemma_skip_trivia(ts, pos + 1);
    }
}

/// A statement ends with a newline or `;`, or with the input.
pub open spec fn statement_end(ts: Seq<Token>, pos: int, st: StatementV) -> Parsed<
    Option<StatementV>,
> {
    match tok(ts, pos) {
        None => Ok((Some(st), pos)),
        Some(Token::Newline) => Ok((Some(st), pos + 1)),
        Some(Token::Semicolon) => Ok((Some(st), pos + 1)),
        _ => Err(error_at(ts, pos, Expected::StatementEnd)),
    }
}

/// The next statement after any newlines, comments and docstrings, through
/// its end; none where the input ends first.
pub open spec fn statement_at(ts: Seq<Token>, pos: int) -> Parsed<Option<StatementV>>
    decreases ts.len() - pos, 1int,
{
    let s = skip_trivia(ts, pos);
    if !(pos <= s <= ts.len()) {
        Ok((None, s))
    } else {
        match tok(ts, s) {
            None => Ok((None, s)),
            Some(Token::Type(_)) => match var_decs_at(ts, s) {
                Ok((ds, q)) => statement_end(ts, q, StatementV::VarDeclarations(ds)),
                Err(e) => Err(e),
            },
            Some(Token::While) => match while_at(ts, s) {
                Ok((w, q)) => statement_end(ts, q, w),
                Err(e) => Err(e),
            },
            Some(Token::Fn) => Err(error_at(ts, s, Expected::NoNestedFunction)),
            Some(Token::Ret) => match return_at(ts, s) {
                Ok((r, q)) => statement_end(ts, q, StatementV::Return(r)),
                Err(e) => Err(e),
            },
            _ => match expr_at(ts, s) {
                Ok((e, q)) => statement_end(ts, q, StatementV::Expr(e)),
                Err(err) => Err(err),
            },
        }
    }
}

/// `while condition { body }`, from the keyword on.
pub open spec fn while_at(ts: Seq<Token>, pos: int) -> Parsed<StatementV>
    decreases ts.len() - pos, 0int,
{
    match expr_at(ts, pos + 1) {
        Ok((c, q)) => {
            if !advances(ts, pos, q) {
                Err(error_at(ts, q, Expected::Operand))
            } else {
                match block_at(ts, q) {
                    Ok((body, q2)) => Ok((StatementV::WhileLoop(c, body), q2)),
                    Err(e) => Err(e),
                }
            }
        },
        Err(e) => Err(e),
    }
}

/// `ret`, with a value unless a newline, `;` or the end of the input follows.
pub open spec fn return_at(ts: Seq<Token>, pos: int) -> Parsed<Option<ExprV>> {
    match tok(ts, pos + 1) {
        None => Ok((None, pos + 1)),
        Some(Token::Newline) => Ok((None, pos + 1)),
        Some(Token::Semicolon) => Ok((None, pos + 1)),
        _ => match expr_at(ts, pos + 1) {
            Ok((e, q)) => Ok((Some(e), q)),
            Err(err) => Err(err),
        },
    }
}

/// A type, then names separated by `,`, each with an optional `= value`.
pub open spec fn var_decs_at(ts: Seq<Token>, pos: int) -> Parsed<Seq<VarDeclarationV>> {
    match tok(ts, pos) {
        Some(Token::Type(t)) => var_decs_rest(ts, pos + 1, t, Seq::empty()),
        _ => Err(error_at(ts, pos, Expected::Type)),
    }
}

/// The declarations of type `ty` from `pos` on, after those in `acc`.
pub open spec fn var_decs_rest(
    ts: Seq<Token>,
    pos: int,
    ty: Type,
    acc: Seq<VarDeclarationV>,
) -> Parsed<Seq<VarDeclarationV>>
    decreases ts.len() - pos,
{
    match tok(ts, pos) {
        Some(Token::Identifier(n)) => {
            let value: Parsed<Option<ExprV>> = match tok(ts, pos + 1) {
                Some(Token::AssignmentSymbol(AssignmentSymbol::Eq)) => match expr_at(ts, pos + 2) {
                    Ok((e, q)) => Ok((Some(e), q)),
                    Err(err) => Err(err),
                },
                _ => Ok((None, pos + 1)),
            };
            match value {
                Ok((v, q)) => {
                    let d = VarDeclarationV { var_name: n@, var_type: ty, var_value: v };
                    if !advances(ts, pos, q) {
                        Ok((acc.push(d), q))
                    } else {
                        match tok(ts, q) {
                            Some(Token::Comma) => var_decs_rest(ts, q + 1, ty, acc.push(d)),
                            _ => Ok((acc.push(d), q)),
                        }
                    }
                },
                Err(e) => Err(e),
            }
        },
        _ => Err(error_at(ts, pos, Expected::Identifier)),
    }
}

/// `{`, statements, `}`.
pub open spec fn block_at(ts: Seq<Token>, pos: int) -> Parsed<Seq<StatementV>>
    decreases ts.len() - pos, 3int,
{
    match tok(ts, pos) {
        Some(Token::LSquirly) => block_rest(ts, pos + 1, Seq::empty()),
        _ => Err(error_at(ts, pos, Expected::Token(Token::LSquirly))),
    }
}

/// The statements of a block from `pos` on, after those in `acc`, through
/// the closing `}`.
pub open spec fn block_rest(ts: Seq<Token>, pos: int, acc: Seq<StatementV>) -> Parsed<
    Seq<StatementV>,
>
    decreases ts.len() - pos, 2int,
{
    let s = skip_trivia(ts, pos);
    if !(pos <= s <= ts.len()) {
        Ok((acc, s))
    } else {
        match tok(ts, s) {
            None => Err(error_at(ts, s, Expected::Token(Token::RSquirly))),
            Some(Token::RSquirly) => Ok((acc, s + 1)),
            _ => match statement_at(ts, s) {
                Ok((Some(st), q)) => {
                    if !advances(ts, s, q) {
                        Ok((acc, q))
                    } else {
                        block_rest(ts, q, acc.push(st))
                    }
                },
                Ok((None, q)) => Err(error_at(ts, q, Expected::Token(Token::RSquirly))),
                Err(e) => Err(e),
            },
        }
    }
}

/// `(`, then `type name` pairs separated by `,`, then `)`.
pub open spec fn params_at(ts: Seq<Token>, pos: int) -> Parsed<Seq<FuncParamV>> {
    match tok(ts, pos) {
        Some(Token::LParen) => match tok(ts, pos + 1) {
            Some(Token::RParen) => Ok((Seq::empty(), pos + 2)),
            _ => params_rest(ts, pos + 1, Seq::empty()),
        },
        _ => Err(error_at(ts, pos, Expected::Token(Token::LParen))),
    }
}

/// The parameters from `pos` on, after those in `acc`, through the `)`.
pub open spec fn params_rest(ts: Seq<Token>, pos: int, acc: Seq<FuncParamV>) -> Parsed<
    Seq<FuncParamV>,
>
    decreases ts.len() - pos,
{
    match tok(ts, pos) {
        Some(Token::Type(t)) => match tok(ts, pos + 1) {
            Some(Token::Identifier(n)) => {
                let p = FuncParamV { param_type: t, param_name: n@ };
                match tok(ts, pos + 2) {
                    Some(Token::RParen) => Ok((acc.push(p), pos + 3)),
                    Some(Token::Comma) => params_rest(ts, pos + 3, acc.push(p)),
                    _ => Err(error_at(ts, pos + 2, Expected::CommaOrRParen)),
                }
            },
            _ => Err(error_at(ts, pos + 1, Expected::Identifier)),
        },
        _ => Err(error_at(ts, pos, Expected::Type)),
    }
}

/// The return type after the parameters of function `name`: none before
/// the body means `Void`.
pub open spec fn return_type_at(ts: Seq<Token>, pos: int, name: String) -> Parsed<Type> {
    match tok(ts, pos) {
        Some(Token::LSquirly) => Ok((Type::Void, pos)),
        Some(Token::Type(t)) => Ok((t, pos + 1)),
        _ => Err(error_at(ts, pos, Expected::ReturnType(name))),
    }
}

/// The next function definition after any newlines, comments and
/// docstrings; none where the input ends first.
pub open spec fn func_def_at(ts: Seq<Token>, pos: int) -> Parsed<Option<FuncDefV>> {
    let s = skip_trivia(ts, pos);
    match tok(ts, s) {
        None => Ok((None, s)),
        Some(Token::Fn) => match tok(ts, s + 1) {
            Some(Token::Identifier(name)) => match params_at(ts, s + 2) {
                Ok((params, q1)) => match return_type_at(ts, q1, name) {
                    Ok((return_type, q2)) => match block_at(ts, q2) {
                        Ok((body, q3)) => Ok(
                            (Some(FuncDefV { name: name@, params, return_type, body }), q3),
                        ),
                        Err(e) => Err(e),
                    },
                    Err(e) => Err(e),
                },
                Err(e) => Err(e),
            },
            _ => Err(error_at(ts, s + 1, Expected::Identifier)),
        },
        _ => Err(error_at(ts, s, Expected::FuncDef)),
    }
}

/// The function definitions from `pos` to the end, after those in `acc`.
pub open spec fn func_defs_rest(ts: Seq<Token>, pos: int, acc: Seq<FuncDefV>) -> Result<
    Seq<FuncDefV>,
    ParseError,
>
    decreases ts.len() - pos,
{
    match func_def_at(ts, pos) {
        Ok((Some(f), q)) => {
            if !advances(ts, pos, q) {
                Ok(acc.push(f))
            } else {
                func_defs_rest(ts, q, acc.push(f))
            }
        },
        Ok((None, _)) => Ok(acc),
        Err(e) => Err(e),
    }
}

/// A whole program: function definitions up to the end of the input.
pub open spec fn program_of(ts: Seq<Token>) -> Result<ProgramV, ParseError> {
    match func_defs_rest(ts, 0, Seq::empty()) {
        Ok(fs) => Ok(ProgramV { func_defs: fs }),
        Err(e) => Err(e),
    }
}

/// The arithmetic symbol that a compound assignment symbol applies.
pub open spec fn arith_symbol_of(s: AssignmentSymbol) -> OperatorSymbol {
    match s {
        AssignmentSymbol::MinusEq => OperatorSymbol::Minus,
        AssignmentSymbol::TimesEq => OperatorSymbol::Asterisk,
        AssignmentSymbol::DivideEq => OperatorSymbol::Slash,
        _ => OperatorSymbol::Plus,
    }
}

/// A compound assignment `n op= v` parses, as a whole, to the same
/// expression as `n = n op v`, for every name `n` and integer literal `v`.
pub proof fn law_compound_assignment_desugars(n: String, s: AssignmentSymbol, v: i64)
    requires
        s != AssignmentSymbol::Eq,
    ensures
        ({
            let short = seq![
                Token::Identifier(n),
                Token::AssignmentSymbol(s),
                Token::I64Literal(v),
            ];
            let long = seq![
                Token::Identifier(n),
                Token::AssignmentSymbol(AssignmentSymbol::Eq),
                Token::Identifier(n),
                Token::OperatorSymbol(arith_symbol_of(s)),
                Token::I64Literal(v),
            ];
            &&& expr_at(short, 0) matches Ok((e, end)) && end == short.len()
            &&& expr_at(long, 0) matches Ok((e2, end2)) && end2 == long.len()
            &&& expr_at(short, 0)->Ok_0.0 == expr_at(long, 0)->Ok_0.0
        }),
{
    let short = seq![Token::Identifier(n), Token::AssignmentSymbol(s), Token::I64Literal(v)];
    let long = seq![
        Token::Identifier(n),
        Token::AssignmentSymbol(AssignmentSymbol::Eq),
        Token::Identifier(n),
        Token::OperatorSymbol(arith_symbol_of(s)),
        Token::I64Literal(v),
    ];
    let lit = ExprV::I64Literal(v);
    let var = ExprV::Identifier(n@);
    let op = arith_symbol_of(s);
    assert(primary_at(short, 2) == Ok::<(ExprV, int), ParseError>((lit, 3)));
    assert(product_rest(short, 3, lit) == Ok::<(ExprV, int), ParseError>((lit, 3)));
    assert(product_at(short, 2) == Ok::<(ExprV, int), ParseError>((lit, 3)));
    assert(sum_rest(short, 3, lit) == Ok::<(ExprV, int), ParseError>((lit, 3)));
    assert(sum_at(short, 2) == Ok::<(ExprV, int), ParseError>((lit, 3)));
    assert(comparison_at(short, 2) == Ok::<(ExprV, int), ParseError>((lit, 3)));
    assert(expr_at(short, 2) == Ok::<(ExprV, int), ParseError>((lit, 3)));

    assert(primary_at(long, 4) == Ok::<(ExprV, int), ParseError>((lit, 5)));
    assert(product_rest(long, 5, lit) == Ok::<(ExprV, int), ParseError>((lit, 5)));
    assert(product_at(long, 4) == Ok::<(ExprV, int), ParseError>((lit, 5)));
    assert(primary_at(long, 2) == Ok::<(ExprV, int), ParseError>((var, 3)));
    let combined = ExprV::Binary(Box::new(var), operator_of_arith(op), Box::new(lit));
    if op == OperatorSymbol::Plus || op == OperatorSymbol::Minus {
        assert(product_rest(long, 3, var) == Ok::<(ExprV, int), ParseError>((var, 3)));
        assert(product_at(long, 2) == Ok::<(ExprV, int), ParseError>((var, 3)));
        assert(sum_rest(long, 5, combined) == Ok::<(ExprV, int), ParseError>((combined, 5)));
        assert(sum_rest(long, 3, var) == Ok::<(ExprV, int), ParseError>((combined, 5)));
    } else {
        assert(primary_at(long, 4) == Ok::<(ExprV, int), ParseError>((lit, 5)));
        assert(product_rest(long, 5, combined) == Ok::<(ExprV, int), ParseError>((combined, 5)));
        assert(product_rest(long, 3, var) == Ok::<(ExprV, int), ParseError>((combined, 5)));
        assert(product_at(long, 2) == Ok::<(ExprV, int), ParseError>((combined, 5)));
        assert(sum_rest(long, 5, combined) == Ok::<(ExprV, int), ParseError>((combined, 5)));
    }
    assert(sum_at(long, 2) == Ok::<(ExprV, int), ParseError>((combined, 5)));
    assert(comparison_at(long, 2) == Ok::<(ExprV, int), ParseError>((combined, 5)));
    assert(expr_at(long, 2) == Ok::<(ExprV, int), ParseError>((combined, 5)));
    assert(assigned_value(n@, s, lit) == combined);
    assert(expr_at(short, 0) == Ok::<(ExprV, int), ParseError>(
        (ExprV::Assign(n@, Box::new(combined)), 3),
    ));
    assert(expr_at(long, 0) == Ok::<(ExprV, int), ParseError>(
        (ExprV::Assign(n@, Box::new(combined)), 5),
    ));
}

/// Comparisons do not chain: `a c1 b c2 d` fails at the second comparator,
/// for all names and comparators, and is never regrouped.
pub proof fn law_comparisons_do_not_chain(
    a: String,
    b: String,
    d: String,
    c1: ComparatorSymbol,
    c2: ComparatorSymbol,
)
    ensures
        ({
            let ts = seq![
                Token::Identifier(a),
                Token::ComparatorSymbol(c1),
                Token::Identifier(b),
                Token::ComparatorSymbol(c2),
                Token::Identifier(d),
            ];
            expr_at(ts, 0) == Err::<(ExprV, int), ParseError>(
                error_at(ts, 3, Expected::NoChainedComparison),
            )
        }),
{
    let ts = seq![
        Token::Identifier(a),
        Token::ComparatorSymbol(c1),
        Token::Identifier(b),
        Token::ComparatorSymbol(c2),
        Token::Identifier(d),
    ];
    let va = ExprV::Identifier(a@);
    let vb = ExprV::Identifier(b@);
    assert(primary_at(ts, 0) == Ok::<(ExprV, int), ParseError>((va, 1)));
    assert(product_rest(ts, 1, va) == Ok::<(ExprV, int), ParseError>((va, 1)));
    assert(product_at(ts, 0) == Ok::<(ExprV, int), ParseError>((va, 1)));
    assert(sum_rest(ts, 1, va) == Ok::<(ExprV, int), ParseError>((va, 1)));
    assert(sum_at(ts, 0) == Ok::<(ExprV, int), ParseError>((va, 1)));
    assert(primary_at(ts, 2) == Ok::<(ExprV, int), ParseError>((vb, 3)));
    assert(product_rest(ts, 3, vb) == Ok::<(ExprV, int), ParseError>((vb, 3)));
    assert(product_at(ts, 2) == Ok::<(ExprV, int), ParseError>((vb, 3)));
    assert(sum_rest(ts, 3, vb) == Ok::<(ExprV, int), ParseError>((vb, 3)));
    assert(sum_at(ts, 2) == Ok::<(ExprV, int), ParseError>((vb, 3)));
    assert(comparison_at(ts, 0) == Err::<(ExprV, int), ParseError>(
        error_at(ts, 3, Expected::NoChainedComparison),
    ));
    assert(!(tok(ts, 1) matches Some(Token::AssignmentSymbol(_))));
}

/// `ret` right before a newline, a `;` or the end of the input is a return
/// without a value, whatever follows.
pub proof fn law_bare_return(end: Token, rest: Seq<Token>)
    requires
        end == Token::Newline || end == Token::Semicolon,
    ensures
        statement_at(seq![Token::Ret, end] + rest, 0) == Ok::<(Option<StatementV>, int), ParseError>(
            (Some(StatementV::Return(None)), 2),
        ),
        statement_at(seq![Token::Ret], 0) == Ok::<(Option<StatementV>, int), ParseError>(
            (Some(StatementV::Return(None)), 1),
        ),
{
    let ts = seq![Token::Ret, end] + rest;
    assert(ts[0] == Token::Ret && ts[1] == end);
    assert(skip_trivia(ts, 0) == 0);
    let one = seq![Token::Ret];
    assert(skip_trivia(one, 0) == 0);
}

} // verus!
