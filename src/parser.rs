//! A recursive-descent parser over a token slice, proved to follow the
//! grammar of `crate::grammar` token for token.
use vstd::prelude::*;
use crate::ast::{
    expr_view, exprs_view, func_def_view, func_defs_view, lemma_exprs_view_push,
    lemma_statements_view_push, lemma_var_decs_view_push, opt_expr_view, opt_func_def_view,
    opt_statement_view, params_view, program_view, statement_view, statements_view, var_decs_view,
    Assign, Binary, BinaryOperator, Call, Expr, ExprV, FuncDef, FuncDefV, FuncParam, FuncParamV,
    Program, ProgramV, Statement, StatementV, VarDeclaration, VarDeclarationV, WhileLoop,
};
use crate::error::{Expected, ParseError};
use crate::grammar::{
    advances, args_at, args_rest, assigned_value, block_at, block_rest, comparison_at, error_at,
    expr_at, func_def_at, func_defs_rest, lemma_skip_trivia, params_at, params_rest, primary_at,
    product_at, product_rest, return_at, skip_trivia, statement_at, sum_at, sum_rest, tok,
    var_decs_at, var_decs_rest, while_at, Parsed,
};
use crate::token::{carries_text, AssignmentSymbol, OperatorSymbol, Token, Type};

verus! {

/// `r` is what the rule that gave `s` promises: the same error, or a value
/// whose view is the recognised one and a cursor at the end of it.
pub open spec fn parsed_as<T, V>(
    r: Result<T, ParseError>,
    s: Parsed<V>,
    view: spec_fn(T) -> V,
    end: int,
) -> bool {
    match s {
        Ok((v, q)) => r is Ok && view(r->Ok_0) == v && end == q,
        Err(e) => r == Err::<T, ParseError>(e),
    }
}

/// A cursor over a token sequence.
pub struct Parser<'a> {
    tokens: &'a [Token],
    cursor: usize,
}

impl<'a> Parser<'a> {
    /// The tokens being parsed.
    pub closed spec fn toks(&self) -> Seq<Token> {
        self.tokens@
    }

    /// The index of the next token to read.
    pub closed spec fn pos(&self) -> int {
        self.cursor as int
    }

    pub closed spec fn wf(&self) -> bool {
        self.cursor <= self.tokens@.len()
    }

    pub fn new(tokens: &'a [Token]) -> (r: Self)
        ensures
            r.wf(),
            r.toks() == tokens@,
            r.pos() == 0,
    {
        Self { tokens, cursor: 0 }
    }

    /// The `n`-th token from the cursor on, counting from 1.
    fn peek_token(&self, n: usize) -> (r: Option<&'a Token>)
        requires
            self.wf(),
            1 <= n <= 3,
        ensures
            match r {
                Some(t) => tok(self.toks(), self.pos() + n - 1) == Some(*t),
                None => tok(self.toks(), self.pos() + n - 1) is None,
            },
    {
        let len = self.tokens.len();
        if n - 1 < len - self.cursor {
            Some(&self.tokens[self.cursor + (n - 1)])
        } else {
            None
        }
    }

    /// Moves past the next token, which exists.
    fn skip_token(&mut self)
        requires
            old(self).wf(),
            old(self).pos() < old(self).toks().len(),
        ensures
            final(self).wf(),
            final(self).toks() == old(self).toks(),
            final(self).pos() == old(self).pos() + 1,
    {
        let len = self.tokens.len();
        assert(self.cursor < len);
        self.cursor = self.cursor + 1;
    }

    /// The error that `expected` names at the cursor.
    fn error_here(&self, expected: Expected) -> (r: ParseError)
        requires
            self.wf(),
        ensures
            r == error_at(self.toks(), self.pos(), expected),
    {
        let found = match self.peek_token(1) {
            Some(t) => Some(t.duplicate()),
            None => None,
        };
        ParseError { expected, found, position: self.cursor }
    }

    /// `next` is this parser after a rule that gave `s` and returned `r`.
    pub open spec fn follows<T, V>(
        self,
        next: Self,
        r: Result<T, ParseError>,
        s: Parsed<V>,
        view: spec_fn(T) -> V,
    ) -> bool {
        &&& next.wf()
        &&& next.toks() == self.toks()
        &&& parsed_as(r, s, view, next.pos())
        &&& r is Ok ==> advances(self.toks(), self.pos(), next.pos())
    }

    /// Reads an identifier and gives its name.
    fn parse_identifier(&mut self) -> (r: Result<String, ParseError>)
        requires
            old(self).wf(),
        ensures
            final(self).wf(),
            final(self).toks() == old(self).toks(),
            match tok(old(self).toks(), old(self).pos()) {
                Some(Token::Identifier(n)) => r == Ok::<String, ParseError>(n)
                    && final(self).pos() == old(self).pos() + 1,
                _ => r == Err::<String, ParseError>(
                    error_at(old(self).toks(), old(self).pos(), Expected::Identifier),
                ),
            },
    {
        match self.peek_token(1) {
            Some(Token::Identifier(id)) => {
                let name = id.clone();
                self.skip_token();
                Ok(name)
            },
            _ => Err(self.error_here(Expected::Identifier)),
        }
    }

    /// Reads the token `expected`, or fails naming it.
    fn assert_next_token(&mut self, expected: Token) -> (r: Result<(), ParseError>)
        requires
            old(self).wf(),
            !carries_text(expected),
        ensures
            final(self).wf(),
            final(self).toks() == old(self).toks(),
            tok(old(self).toks(), old(self).pos()) == Some(expected) ==> r is Ok
                && final(self).pos() == old(self).pos() + 1,
            tok(old(self).toks(), old(self).pos()) != Some(expected) ==> r == Err::<(), ParseError>(
                error_at(old(self).toks(), old(self).pos(), Expected::Token(expected)),
            ),
    {
        let matched = match self.peek_token(1) {
            Some(t) => token_eq(t, &expected),
            None => false,
        };
        if matched {
            self.skip_token();
            Ok(())
        } else {
            Err(self.error_here(Expected::Token(expected)))
        }
    }

    pub fn parse_expr(&mut self) -> (r: Result<Expr, ParseError>)
        requires
            old(self).wf(),
        ensures
            old(self).follows(*final(self), r, expr_at(old(self).toks(), old(self).pos()), |e: Expr| expr_view(e)),
        decreases old(self).toks().len() - old(self).pos(), 12int,
    {
        self.parse_assignment_expr()
    }

    /// An assignment `name = value`; compound symbols such as `+=` become a
    /// plain assignment of the combined value.
    fn parse_assignment_expr(&mut self) -> (r: Result<Expr, ParseError>)
        requires
            old(self).wf(),
        ensures
            old(self).follows(*final(self), r, expr_at(old(self).toks(), old(self).pos()), |e: Expr| expr_view(e)),
        decreases old(self).toks().len() - old(self).pos(), 11int,
    {
        let symbol = match (self.peek_token(1), self.peek_token(2)) {
            (Some(Token::Identifier(_)), Some(Token::AssignmentSymbol(s))) => *s,
            _ => return self.parse_logical_or_expr(),
        };
        let name = match self.parse_identifier() {
            Ok(n) => n,
            Err(e) => return Err(e),
        };
        self.skip_token();
        let rhs = match self.parse_expr() {
            Ok(e) => e,
            Err(e) => return Err(e),
        };
        let value = match BinaryOperator::from_assignment(symbol) {
            None => rhs,
            Some(operator) => {
                let left = Expr::Identifier(name.clone());
                assert(expr_view(left) == ExprV::Identifier(name@));
                Expr::Binary(Binary { left: Box::new(left), operator, right: Box::new(rhs) })
            },
        };
        assert(expr_view(value) == assigned_value(name@, symbol, expr_view(rhs)));
        Ok(Expr::Assign(Assign { name, value: Box::new(value) }))
    }

    /// The level of `||`, which the language does not have yet.
    fn parse_logical_or_expr(&mut self) -> (r: Result<Expr, ParseError>)
        requires
            old(self).wf(),
        ensures
            old(self).follows(*final(self), r, comparison_at(old(self).toks(), old(self).pos()), |e: Expr| expr_view(e)),
        decreases old(self).toks().len() - old(self).pos(), 10int,
    {
        self.parse_logical_and_expr()
    }

    /// The level of `&&`, which the language does not have yet.
    fn parse_logical_and_expr(&mut self) -> (r: Result<Expr, ParseError>)
        requires
            old(self).wf(),
        ensures
            old(self).follows(*final(self), r, comparison_at(old(self).toks(), old(self).pos()), |e: Expr| expr_view(e)),
        decreases old(self).toks().len() - old(self).pos(), 9int,
    {
        self.parse_comparison_expression()
    }

    /// At most one comparator between two sums; a second one is an error.
    fn parse_comparison_expression(&mut self) -> (r: Result<Expr, ParseError>)
        requires
            old(self).wf(),
        ensures
            old(self).follows(*final(self), r, comparison_at(old(self).toks(), old(self).pos()), |e: Expr| expr_view(e)),
        decreases old(self).toks().len() - old(self).pos(), 8int,
    {
        let left = match self.parse_add_sub_expr() {
            Ok(e) => e,
            Err(e) => return Err(e),
        };
        let operator = match self.peek_token(1) {
            Some(Token::ComparatorSymbol(s)) => BinaryOperator::from_comparator(*s),
            _ => return Ok(left),
        };
        self.skip_token();
        let right = match self.parse_add_sub_expr() {
            Ok(e) => e,
            Err(e) => return Err(e),
        };
        if let Some(Token::ComparatorSymbol(_)) = self.peek_token(1) {
            return Err(self.error_here(Expected::NoChainedComparison));
        }
        Ok(Expr::Binary(Binary { left: Box::new(left), operator, right: Box::new(right) }))
    }

    /// Terms joined by `+` and `-`, grouped to the left.
    fn parse_add_sub_expr(&mut self) -> (r: Result<Expr, ParseError>)
        requires
            old(self).wf(),
        ensures
            old(self).follows(*final(self), r, sum_at(old(self).toks(), old(self).pos()), |e: Expr| expr_view(e)),
        decreases old(self).toks().len() - old(self).pos(), 7int,
    {
        let ghost ts = self.toks();
        let ghost start = self.pos();
        let mut left_expr_so_far = match self.parse_mul_div_expr() {
            Ok(e) => e,
            Err(e) => return Err(e),
        };
        loop
            invariant
                self.wf(),
                self.toks() == ts,
                ts == old(self).toks(),
                start == old(self).pos(),
                advances(ts, start, self.pos()),
                sum_rest(ts, self.pos(), expr_view(left_expr_so_far)) == sum_at(ts, start),
            decreases ts.len() - self.pos(),
        {
            let symbol = match self.peek_token(1) {
                Some(Token::OperatorSymbol(OperatorSymbol::Plus)) => OperatorSymbol::Plus,
                Some(Token::OperatorSymbol(OperatorSymbol::Minus)) => OperatorSymbol::Minus,
                _ => return Ok(left_expr_so_far),
            };
            let operator = BinaryOperator::from_arith(symbol);
            self.skip_token();
            let right = match self.parse_mul_div_expr() {
                Ok(e) => e,
                Err(e) => return Err(e),
            };
            left_expr_so_far = Expr::Binary(
                Binary { left: Box::new(left_expr_so_far), operator, right: Box::new(right) },
            );
        }
    }

    /// Factors joined by `*` and `/`, grouped to the left.
    fn parse_mul_div_expr(&mut self) -> (r: Result<Expr, ParseError>)
        requires
            old(self).wf(),
        ensures
            old(self).follows(*final(self), r, product_at(old(self).toks(), old(self).pos()), |e: Expr| expr_view(e)),
        decreases old(self).toks().len() - old(self).pos(), 6int,
    {
        let ghost ts = self.toks();
        let ghost start = self.pos();
        let mut left_expr_so_far = match self.parse_primary_expr() {
            Ok(e) => e,
            Err(e) => return Err(e),
        };
        loop
            invariant
                self.wf(),
                self.toks() == ts,
                ts == old(self).toks(),
                start == old(self).pos(),
                advances(ts, start, self.pos()),
                product_rest(ts, self.pos(), expr_view(left_expr_so_far)) == product_at(ts, start),
            decreases ts.len() - self.pos(),
        {
            let symbol = match self.peek_token(1) {
                Some(Token::OperatorSymbol(OperatorSymbol::Asterisk)) => OperatorSymbol::Asterisk,
                Some(Token::OperatorSymbol(OperatorSymbol::Slash)) => OperatorSymbol::Slash,
                _ => return Ok(left_expr_so_far),
            };
            let operator = BinaryOperator::from_arith(symbol);
            self.skip_token();
            let right = match self.parse_primary_expr() {
                Ok(e) => e,
                Err(e) => return Err(e),
            };
            left_expr_so_far = Expr::Binary(
                Binary { left: Box::new(left_expr_so_far), operator, right: Box::new(right) },
            );
        }
    }

    /// A parenthesised expression, a call, an identifier or a literal.
    fn parse_primary_expr(&mut self) -> (r: Result<Expr, ParseError>)
        requires
            old(self).wf(),
        ensures
            old(self).follows(*final(self), r, primary_at(old(self).toks(), old(self).pos()), |e: Expr| expr_view(e)),
        decreases old(self).toks().len() - old(self).pos(), 5int,
    {
        match (self.peek_token(1), self.peek_token(2)) {
            (Some(Token::LParen), _) => {
                self.skip_token();
                let expr = match self.parse_expr() {
                    Ok(e) => e,
                    Err(e) => return Err(e),
                };
                match self.assert_next_token(Token::RParen) {
                    Ok(()) => Ok(expr),
                    Err(e) => Err(e),
                }
            },
            (Some(Token::Identifier(_)), Some(Token::LParen)) => self.parse_call_expr(),
            _ => self.parse_atom(),
        }
    }

    /// A call: a name followed by its arguments.
    fn parse_call_expr(&mut self) -> (r: Result<Expr, ParseError>)
        requires
            old(self).wf(),
            tok(old(self).toks(), old(self).pos()) matches Some(Token::Identifier(_)),
            tok(old(self).toks(), old(self).pos() + 1) == Some(Token::LParen),
        ensures
            old(self).follows(*final(self), r, primary_at(old(self).toks(), old(self).pos()), |e: Expr| expr_view(e)),
        decreases old(self).toks().len() - old(self).pos(), 4int,
    {
        let identifier = match self.parse_identifier() {
            Ok(n) => n,
            Err(e) => return Err(e),
        };
        match self.parse_args() {
            Ok(args) => Ok(Expr::Call(Call { function_name: identifier, args })),
            Err(e) => Err(e),
        }
    }

    /// `(`, then expressions separated by `,`, then `)`.
    fn parse_args(&mut self) -> (r: Result<Vec<Expr>, ParseError>)
        requires
            old(self).wf(),
            tok(old(self).toks(), old(self).pos()) == Some(Token::LParen),
        ensures
            old(self).follows(*final(self), r, args_at(old(self).toks(), old(self).pos() + 1), |v: Vec<Expr>| exprs_view(v@)),
        decreases old(self).toks().len() - old(self).pos(), 13int,
    {
        let ghost ts = self.toks();
        self.skip_token();
        let ghost start = self.pos();
        let mut args: Vec<Expr> = Vec::new();
        if let Some(Token::RParen) = self.peek_token(1) {
            self.skip_token();
            assert(exprs_view(args@) =~= Seq::<ExprV>::empty());
            return Ok(args);
        }
        assert(exprs_view(args@) =~= Seq::<ExprV>::empty());
        loop
            invariant
                self.wf(),
                self.toks() == ts,
                ts == old(self).toks(),
                start == old(self).pos() + 1,
                start <= self.pos(),
                args_rest(ts, self.pos(), exprs_view(args@)) == args_at(ts, start),
            decreases ts.len() - self.pos(),
        {
            let arg = match self.parse_expr() {
                Ok(e) => e,
                Err(e) => return Err(e),
            };
            proof {
                lemma_exprs_view_push(args@, arg);
            }
            args.push(arg);
            match self.peek_token(1) {
                Some(Token::RParen) => {
                    self.skip_token();
                    return Ok(args);
                },
                Some(Token::Comma) => {
                    self.skip_token();
                },
                _ => return Err(self.error_here(Expected::CommaOrRParen)),
            }
        }
    }

    /// An identifier or an integer literal.
    fn parse_atom(&mut self) -> (r: Result<Expr, ParseError>)
        requires
            old(self).wf(),
        ensures
            final(self).wf(),
            final(self).toks() == old(self).toks(),
            match tok(old(self).toks(), old(self).pos()) {
                Some(Token::Identifier(n)) => r == Ok::<Expr, ParseError>(Expr::Identifier(n))
                    && final(self).pos() == old(self).pos() + 1,
                Some(Token::I64Literal(v)) => r == Ok::<Expr, ParseError>(Expr::I64Literal(v))
                    && final(self).pos() == old(self).pos() + 1,
                _ => r == Err::<Expr, ParseError>(
                    error_at(old(self).toks(), old(self).pos(), Expected::Operand),
                ),
            },
    {
        match self.peek_token(1) {
            Some(Token::Identifier(id)) => {
                let name = id.clone();
                self.skip_token();
                Ok(Expr::Identifier(name))
            },
            Some(Token::I64Literal(n)) => {
                let v = *n;
                self.skip_token();
                Ok(Expr::I64Literal(v))
            },
            _ => Err(self.error_here(Expected::Operand)),
        }
    }

    /// Moves past newlines, comments and docstrings.
    fn skip_newlines_comments_and_docstrings(&mut self)
        requires
            old(self).wf(),
        ensures
            final(self).wf(),
            final(self).toks() == old(self).toks(),
            final(self).pos() == skip_trivia(old(self).toks(), old(self).pos()),
            old(self).pos() <= final(self).pos(),
    {
        let ghost ts = self.toks();
        let ghost start = self.pos();
        proof {
            lemma_skip_trivia(ts, start);
        }
        loop
            invariant
                self.wf(),
                self.toks() == ts,
                ts == old(self).toks(),
                start == old(self).pos(),
                start <= self.pos(),
                skip_trivia(ts, self.pos()) == skip_trivia(ts, start),
            decreases ts.len() - self.pos(),
        {
            match self.peek_token(1) {
                Some(Token::Newline) | Some(Token::Comment(_)) | Some(Token::Docstring(_)) => {
                    self.skip_token();
                },
                _ => return,
            }
        }
    }

    /// Reads a type name.
    fn parse_type(&mut self) -> (r: Result<Type, ParseError>)
        requires
            old(self).wf(),
        ensures
            final(self).wf(),
            final(self).toks() == old(self).toks(),
            match tok(old(self).toks(), old(self).pos()) {
                Some(Token::Type(t)) => r == Ok::<Type, ParseError>(t) && final(self).pos()
                    == old(self).pos() + 1,
                _ => r == Err::<Type, ParseError>(
                    error_at(old(self).toks(), old(self).pos(), Expected::Type),
                ),
            },
    {
        match self.peek_token(1) {
            Some(Token::Type(t)) => {
                let var_type = *t;
                self.skip_token();
                Ok(var_type)
            },
            _ => Err(self.error_here(Expected::Type)),
        }
    }

    /// The next statement, after any newlines, comments and docstrings,
    /// together with the newline or `;` that ends it; none at the end of the
    /// input.
    pub fn parse_statement(&mut self) -> (r: Result<Option<Statement>, ParseError>)
        requires
            old(self).wf(),
        ensures
            final(self).wf(),
            final(self).toks() == old(self).toks(),
            parsed_as(
                r,
                statement_at(old(self).toks(), old(self).pos()),
                |o: Option<Statement>| opt_statement_view(o),
                final(self).pos(),
            ),
            r matches Ok(Some(_)) ==> advances(old(self).toks(), old(self).pos(), final(self).pos()),
        decreases old(self).toks().len() - old(self).pos(), 1int,
    {
        let ghost ts = self.toks();
        let ghost start = self.pos();
        self.skip_newlines_comments_and_docstrings();
        proof {
            lemma_skip_trivia(ts, start);
        }
        let statement = match self.peek_token(1) {
            None => return Ok(None),
            Some(Token::Type(_)) => match self.parse_var_decs() {
                Ok(decs) => Statement::VarDeclarations(decs),
                Err(e) => return Err(e),
            },
            Some(Token::While) => match self.parse_while_loop() {
                Ok(w) => Statement::WhileLoop(w),
                Err(e) => return Err(e),
            },
            Some(Token::Fn) => return Err(self.error_here(Expected::NoNestedFunction)),
            Some(Token::Ret) => match self.parse_return_statement() {
                Ok(value) => Statement::Return(value),
                Err(e) => return Err(e),
            },
            _ => match self.parse_expr() {
                Ok(e) => Statement::Expr(e),
                Err(e) => return Err(e),
            },
        };
        match self.peek_token(1) {
            None => Ok(Some(statement)),
            Some(Token::Newline) | Some(Token::Semicolon) => {
                self.skip_token();
                Ok(Some(statement))
            },
            _ => Err(self.error_here(Expected::StatementEnd)),
        }
    }

    /// A type and the names it declares, each with an optional value.
    fn parse_var_decs(&mut self) -> (r: Result<Vec<VarDeclaration>, ParseError>)
        requires
            old(self).wf(),
        ensures
            old(self).follows(*final(self), r, var_decs_at(old(self).toks(), old(self).pos()), |v: Vec<VarDeclaration>| var_decs_view(v@)),
    {
        let ghost ts = self.toks();
        let ghost start = self.pos();
        let var_type = match self.parse_type() {
            Ok(t) => t,
            Err(e) => return Err(e),
        };
        let mut var_decs: Vec<VarDeclaration> = Vec::new();
        assert(var_decs_view(var_decs@) =~= Seq::<VarDeclarationV>::empty());
        loop
            invariant
                self.wf(),
                self.toks() == ts,
                ts == old(self).toks(),
                start == old(self).pos(),
                start < self.pos(),
                var_decs_rest(ts, self.pos(), var_type, var_decs_view(var_decs@)) == var_decs_at(ts, start),
            decreases ts.len() - self.pos(),
        {
            let var_name = match self.parse_identifier() {
                Ok(n) => n,
                Err(e) => return Err(e),
            };
            let var_value = match self.peek_token(1) {
                Some(Token::AssignmentSymbol(AssignmentSymbol::Eq)) => {
                    self.skip_token();
                    match self.parse_expr() {
                        Ok(e) => Some(e),
                        Err(e) => return Err(e),
                    }
                },
                _ => None,
            };
            let var_dec = VarDeclaration { var_name, var_type, var_value };
            proof {
                lemma_var_decs_view_push(var_decs@, var_dec);
            }
            var_decs.push(var_dec);
            match self.peek_token(1) {
                Some(Token::Comma) => self.skip_token(),
                _ => return Ok(var_decs),
            }
        }
    }

    /// `{`, statements, `}`.
    fn parse_body(&mut self) -> (r: Result<Vec<Statement>, ParseError>)
        requires
            old(self).wf(),
        ensures
            old(self).follows(*final(self), r, block_at(old(self).toks(), old(self).pos()), |b: Vec<Statement>| statements_view(b@)),
        decreases old(self).toks().len() - old(self).pos(), 3int,
    {
        let ghost ts = self.toks();
        let ghost start = self.pos();
        match self.assert_next_token(Token::LSquirly) {
            Ok(()) => {},
            Err(e) => return Err(e),
        }
        let mut body: Vec<Statement> = Vec::new();
        assert(statements_view(body@) =~= Seq::<StatementV>::empty());
        loop
            invariant
                self.wf(),
                self.toks() == ts,
                ts == old(self).toks(),
                start == old(self).pos(),
                start < self.pos(),
                block_rest(ts, self.pos(), statements_view(body@)) == block_at(ts, start),
            decreases ts.len() - self.pos(),
        {
            self.skip_newlines_comments_and_docstrings();
            match self.peek_token(1) {
                None => return Err(self.error_here(Expected::Token(Token::RSquirly))),
                Some(Token::RSquirly) => {
                    self.skip_token();
                    return Ok(body);
                },
                _ => {},
            }
            match self.parse_statement() {
                Ok(Some(statement)) => {
                    proof {
                        lemma_statements_view_push(body@, statement);
                    }
                    body.push(statement);
                },
                Ok(None) => return Err(self.error_here(Expected::Token(Token::RSquirly))),
                Err(e) => return Err(e),
            }
        }
    }

    /// Every function definition up to the end of the input.
    pub fn parse_program(&mut self) -> (r: Result<Program, ParseError>)
        requires
            old(self).wf(),
        ensures
            final(self).wf(),
            final(self).toks() == old(self).toks(),
            match func_defs_rest(old(self).toks(), old(self).pos(), Seq::empty()) {
                Ok(fs) => r is Ok && program_view(r->Ok_0) == (ProgramV { func_defs: fs }),
                Err(e) => r == Err::<Program, ParseError>(e),
            },
            r is Ok ==> final(self).pos() == final(self).toks().len(),
    {
        let ghost ts = self.toks();
        let ghost start = self.pos();
        let mut func_defs: Vec<FuncDef> = Vec::new();
        assert(func_defs_view(func_defs@) =~= Seq::<FuncDefV>::empty());
        loop
            invariant
                self.wf(),
                self.toks() == ts,
                ts == old(self).toks(),
                start == old(self).pos(),
                func_defs_rest(ts, self.pos(), func_defs_view(func_defs@)) == func_defs_rest(
                    ts,
                    start,
                    Seq::empty(),
                ),
            decreases ts.len() - self.pos(),
        {
            match self.parse_func_def() {
                Ok(Some(func_def)) => {
                    assert(func_defs_view(func_defs@.push(func_def)) =~= func_defs_view(
                        func_defs@,
                    ).push(func_def_view(func_def)));
                    func_defs.push(func_def);
                },
                Ok(None) => return Ok(Program { func_defs }),
                Err(e) => return Err(e),
            }
        }
    }

    /// The next function definition, after any newlines, comments and
    /// docstrings; none at the end of the input.
    fn parse_func_def(&mut self) -> (r: Result<Option<FuncDef>, ParseError>)
        requires
            old(self).wf(),
        ensures
            final(self).wf(),
            final(self).toks() == old(self).toks(),
            parsed_as(
                r,
                func_def_at(old(self).toks(), old(self).pos()),
                |o: Option<FuncDef>| opt_func_def_view(o),
                final(self).pos(),
            ),
            r matches Ok(Some(_)) ==> advances(old(self).toks(), old(self).pos(), final(self).pos()),
    {
        let ghost ts = self.toks();
        let ghost start = self.pos();
        self.skip_newlines_comments_and_docstrings();
        match self.peek_token(1) {
            None => return Ok(None),
            Some(Token::Fn) => self.skip_token(),
            _ => return Err(self.error_here(Expected::FuncDef)),
        }
        let name = match self.parse_identifier() {
            Ok(n) => n,
            Err(e) => return Err(e),
        };
        let params = match self.parse_func_params() {
            Ok(p) => p,
            Err(e) => return Err(e),
        };
        let return_type = match self.peek_token(1) {
            Some(Token::LSquirly) => Type::Void,
            Some(Token::Type(_)) => match self.parse_type() {
                Ok(t) => t,
                Err(e) => return Err(e),
            },
            _ => return Err(self.error_here(Expected::ReturnType(name.clone()))),
        };
        let body = match self.parse_body() {
            Ok(b) => b,
            Err(e) => return Err(e),
        };
        Ok(Some(FuncDef { name, params, return_type, body }))
    }

    /// `(`, then `type name` pairs separated by `,`, then `)`.
    fn parse_func_params(&mut self) -> (r: Result<Vec<FuncParam>, ParseError>)
        requires
            old(self).wf(),
        ensures
            old(self).follows(*final(self), r, params_at(old(self).toks(), old(self).pos()), |v: Vec<FuncParam>| params_view(v@)),
    {
        let ghost ts = self.toks();
        let ghost start = self.pos();
        match self.assert_next_token(Token::LParen) {
            Ok(()) => {},
            Err(e) => return Err(e),
        }
        let mut params: Vec<FuncParam> = Vec::new();
        assert(params_view(params@) =~= Seq::<FuncParamV>::empty());
        if let Some(Token::RParen) = self.peek_token(1) {
            self.skip_token();
            return Ok(params);
        }
        loop
            invariant
                self.wf(),
                self.toks() == ts,
                ts == old(self).toks(),
                start == old(self).pos(),
                start < self.pos(),
                params_rest(ts, self.pos(), params_view(params@)) == params_at(ts, start),
            decreases ts.len() - self.pos(),
        {
            let param_type = match self.parse_type() {
                Ok(t) => t,
                Err(e) => return Err(e),
            };
            let param_name = match self.parse_identifier() {
                Ok(n) => n,
                Err(e) => return Err(e),
            };
            let func_param = FuncParam { param_type, param_name };
            assert(params_view(params@.push(func_param)) =~= params_view(params@).push(
                FuncParamV { param_type, param_name: func_param.param_name@ },
            ));
            params.push(func_param);
            match self.peek_token(1) {
                Some(Token::RParen) => {
                    self.skip_token();
                    return Ok(params);
                },
                Some(Token::Comma) => self.skip_token(),
                _ => return Err(self.error_here(Expected::CommaOrRParen)),
            }
        }
    }

    /// `while`, a condition and a body.
    fn parse_while_loop(&mut self) -> (r: Result<WhileLoop, ParseError>)
        requires
            old(self).wf(),
            tok(old(self).toks(), old(self).pos()) == Some(Token::While),
        ensures
            old(self).follows(*final(self), r, while_at(old(self).toks(), old(self).pos()), |w: WhileLoop| statement_view(Statement::WhileLoop(w))),
        decreases old(self).toks().len() - old(self).pos(), 0int,
    {
        self.skip_token();
        let condition = match self.parse_expr() {
            Ok(e) => e,
            Err(e) => return Err(e),
        };
        let body = match self.parse_body() {
            Ok(b) => b,
            Err(e) => return Err(e),
        };
        Ok(WhileLoop { condition, body })
    }

    /// `ret` and its optional value.
    fn parse_return_statement(&mut self) -> (r: Result<Option<Expr>, ParseError>)
        requires
            old(self).wf(),
            tok(old(self).toks(), old(self).pos()) == Some(Token::Ret),
        ensures
            old(self).follows(*final(self), r, return_at(old(self).toks(), old(self).pos()), |o: Option<Expr>| opt_expr_view(o)),
    {
        self.skip_token();
        match self.peek_token(1) {
            None | Some(Token::Newline) | Some(Token::Semicolon) => Ok(None),
            _ => match self.parse_expr() {
                Ok(e) => Ok(Some(e)),
                Err(e) => Err(e),
            },
        }
    }
}

/// Whether two tokens are equal, where the second carries no text.
fn token_eq(a: &Token, b: &Token) -> (r: bool)
    requires
        !carries_text(*b),
    ensures
        r == (*a == *b),
{
    match (a, b) {
        (Token::Fn, Token::Fn) => true,
        (Token::While, Token::While) => true,
        (Token::Ret, Token::Ret) => true,
        (Token::Type(x), Token::Type(y)) => *x == *y,
        (Token::I64Literal(x), Token::I64Literal(y)) => *x == *y,
        (Token::AssignmentSymbol(x), Token::AssignmentSymbol(y)) => *x == *y,
        (Token::ComparatorSymbol(x), Token::ComparatorSymbol(y)) => *x == *y,
        (Token::OperatorSymbol(x), Token::OperatorSymbol(y)) => *x == *y,
        (Token::Punctuation(x), Token::Punctuation(y)) => *x == *y,
        (Token::Comma, Token::Comma) => true,
        (Token::Semicolon, Token::Semicolon) => true,
        (Token::Colon, Token::Colon) => true,
        (Token::Dot, Token::Dot) => true,
        (Token::LParen, Token::LParen) => true,
        (Token::RParen, Token::RParen) => true,
        (Token::LSquirly, Token::LSquirly) => true,
        (Token::RSquirly, Token::RSquirly) => true,
        (Token::LBracket, Token::LBracket) => true,
        (Token::RBracket, Token::RBracket) => true,
        (Token::Newline, Token::Newline) => true,
        _ => false,
    }
}

} // verus!
