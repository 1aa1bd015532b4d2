//! The syntax tree that the parser builds, and its mathematical view.
use vstd::prelude::*;
use crate::token::{AssignmentSymbol, ComparatorSymbol, OperatorSymbol, Type};

verus! {

/// The binary operators of expressions.
#[derive(Debug, Clone, Copy, PartialEq, Eq, Structural)]
pub enum BinaryOperator {
    Add,
    Subtract,
    Multiply,
    Divide,
    EqualTo,
    NotEqualTo,
    LessThan,
    LessOrEqualTo,
    GreaterThan,
    GreaterOrEqualTo,
}

pub open spec fn operator_of_arith(s: OperatorSymbol) -> BinaryOperator {
    match s {
        OperatorSymbol::Plus => BinaryOperator::Add,
        OperatorSymbol::Minus => BinaryOperator::Subtract,
        OperatorSymbol::Asterisk => BinaryOperator::Multiply,
        OperatorSymbol::Slash => BinaryOperator::Divide,
    }
}

pub open spec fn operator_of_comparator(s: ComparatorSymbol) -> BinaryOperator {
    match s {
        ComparatorSymbol::EqualTo => BinaryOperator::EqualTo,
        ComparatorSymbol::NotEqualTo => BinaryOperator::NotEqualTo,
        ComparatorSymbol::LessThan => BinaryOperator::LessThan,
        ComparatorSymbol::LessThanOrEqualTo => BinaryOperator::LessOrEqualTo,
        ComparatorSymbol::GreaterThan => BinaryOperator::GreaterThan,
        ComparatorSymbol::GreaterThanOrEqualTo => BinaryOperator::GreaterOrEqualTo,
    }
}

/// The operator that a compound assignment applies; none for plain `=`.
pub open spec fn operator_of_assignment(s: AssignmentSymbol) -> Option<BinaryOperator> {
    match s {
        AssignmentSymbol::Eq => None,
        AssignmentSymbol::PlusEq => Some(BinaryOperator::Add),
        AssignmentSymbol::MinusEq => Some(BinaryOperator::Subtract),
        AssignmentSymbol::TimesEq => Some(BinaryOperator::Multiply),
        AssignmentSymbol::DivideEq => Some(BinaryOperator::Divide),
    }
}

impl BinaryOperator {
    pub fn from_arith(s: OperatorSymbol) -> (r: BinaryOperator)
        ensures
            r == operator_of_arith(s),
    {
        match s {
            OperatorSymbol::Plus => BinaryOperator::Add,
            OperatorSymbol::Minus => BinaryOperator::Subtract,
            OperatorSymbol::Asterisk => BinaryOperator::Multiply,
            OperatorSymbol::Slash => BinaryOperator::Divide,
        }
    }

    pub fn from_comparator(s: ComparatorSymbol) -> (r: BinaryOperator)
        ensures
            r == operator_of_comparator(s),
    {
        match s {
            ComparatorSymbol::EqualTo => BinaryOperator::EqualTo,
            ComparatorSymbol::NotEqualTo => BinaryOperator::NotEqualTo,
            ComparatorSymbol::LessThan => BinaryOperator::LessThan,
            ComparatorSymbol::LessThanOrEqualTo => BinaryOperator::LessOrEqualTo,
            ComparatorSymbol::GreaterThan => BinaryOperator::GreaterThan,
            ComparatorSymbol::GreaterThanOrEqualTo => BinaryOperator::GreaterOrEqualTo,
        }
    }

    pub fn from_assignment(s: AssignmentSymbol) -> (r: Option<BinaryOperator>)
        ensures
            r == operator_of_assignment(s),
    {
        match s {
            AssignmentSymbol::Eq => None,
            AssignmentSymbol::PlusEq => Some(BinaryOperator::Add),
            AssignmentSymbol::MinusEq => Some(BinaryOperator::Subtract),
            AssignmentSymbol::TimesEq => Some(BinaryOperator::Multiply),
            AssignmentSymbol::DivideEq => Some(BinaryOperator::Divide),
        }
    }
}

#[derive(Debug, PartialEq, Eq)]
pub struct Program {
    pub func_defs: Vec<FuncDef>,
}

#[derive(Debug, PartialEq, Eq)]
pub struct FuncDef {
    pub name: String,
    pub params: Vec<FuncParam>,
    pub return_type: Type,
    pub body: Vec<Statement>,
}

#[derive(Debug, PartialEq, Eq)]
pub struct FuncParam {
    pub param_type: Type,
    pub param_name: String,
}

#[derive(Debug, PartialEq, Eq)]
pub enum Statement {
    VarDeclarations(Vec<VarDeclaration>),
    WhileLoop(WhileLoop),
    Return(Option<Expr>),
    Expr(Expr),
}

#[derive(Debug, PartialEq, Eq)]
pub struct VarDeclaration {
    pub var_name: String,
    pub var_type: Type,
    pub var_value: Option<Expr>,
}

#[derive(Debug, PartialEq, Eq)]
pub struct WhileLoop {
    pub condition: Expr,
    pub body: Vec<Statement>,
}

#[derive(Debug, PartialEq, Eq)]
pub enum Expr {
    Identifier(String),
    I64Literal(i64),
    Binary(Binary),
    Assign(Assign),
    Call(Call),
}

#[derive(Debug, PartialEq, Eq)]
pub struct Binary {
    pub left: Box<Expr>,
    pub operator: BinaryOperator,
    pub right: Box<Expr>,
}

#[derive(Debug, PartialEq, Eq)]
pub struct Assign {
    pub name: String,
    pub value: Box<Expr>,
}

#[derive(Debug, PartialEq, Eq)]
pub struct Call {
    pub function_name: String,
    pub args: Vec<Expr>,
}

/// The mathematical value of an expression: names as character sequences,
/// children as values.
pub enum ExprV {
    Identifier(Seq<char>),
    I64Literal(i64),
    Binary(Box<ExprV>, BinaryOperator, Box<ExprV>),
    Assign(Seq<char>, Box<ExprV>),
    Call(Seq<char>, Seq<ExprV>),
}

pub struct VarDeclarationV {
    pub var_name: Seq<char>,
    pub var_type: Type,
    pub var_value: Option<ExprV>,
}

pub enum StatementV {
    VarDeclarations(Seq<VarDeclarationV>),
    WhileLoop(ExprV, Seq<StatementV>),
    Return(Option<ExprV>),
    Expr(ExprV),
}

pub struct FuncParamV {
    pub param_type: Type,
    pub param_name: Seq<char>,
}

pub struct FuncDefV {
    pub name: Seq<char>,
    pub params: Seq<FuncParamV>,
    pub return_type: Type,
    pub body: Seq<StatementV>,
}

pub struct ProgramV {
    pub func_defs: Seq<FuncDefV>,
}

pub open spec fn expr_view(e: Expr) -> ExprV
    decreases e,
{
    match e {
        Expr::Identifier(n) => ExprV::Identifier(n@),
        Expr::I64Literal(v) => ExprV::I64Literal(v),
        Expr::Binary(b) => ExprV::Binary(
            Box::new(expr_view(*b.left)),
            b.operator,
            Box::new(expr_view(*b.right)),
        ),
        Expr::Assign(a) => ExprV::Assign(a.name@, Box::new(expr_view(*a.value))),
        Expr::Call(c) => ExprV::Call(
            c.function_name@,
            exprs_view(c.args@),
        ),
    }
}

pub open spec fn exprs_view(s: Seq<Expr>) -> Seq<ExprV>
    decreases s,
{
    if s.len() == 0 {
        Seq::empty()
    } else {
        exprs_view(s.drop_last()).push(expr_view(s.last()))
    }
}

pub open spec fn opt_expr_view(o: Option<Expr>) -> Option<ExprV> {
    match o {
        Some(e) => Some(expr_view(e)),
        None => None,
    }
}

pub open spec fn opt_statement_view(o: Option<Statement>) -> Option<StatementV> {
    match o {
        Some(st) => Some(statement_view(st)),
        None => None,
    }
}

pub open spec fn opt_func_def_view(o: Option<FuncDef>) -> Option<FuncDefV> {
    match o {
        Some(f) => Some(func_def_view(f)),
        None => None,
    }
}

pub open spec fn var_decs_view(s: Seq<VarDeclaration>) -> Seq<VarDeclarationV>
    decreases s.len(),
{
    if s.len() == 0 {
        Seq::empty()
    } else {
        var_decs_view(s.drop_last()).push(var_dec_view(s.last()))
    }
}

pub open spec fn var_dec_view(d: VarDeclaration) -> VarDeclarationV {
    VarDeclarationV {
        var_name: d.var_name@,
        var_type: d.var_type,
        var_value: opt_expr_view(d.var_value),
    }
}

pub open spec fn statement_view(st: Statement) -> StatementV
    decreases st,
{
    match st {
        Statement::VarDeclarations(ds) => StatementV::VarDeclarations(var_decs_view(ds@)),
        Statement::WhileLoop(w) => StatementV::WhileLoop(
            expr_view(w.condition),
            statements_view(w.body@),
        ),
        Statement::Return(r) => StatementV::Return(opt_expr_view(r)),
        Statement::Expr(e) => StatementV::Expr(expr_view(e)),
    }
}

pub open spec fn statements_view(s: Seq<Statement>) -> Seq<StatementV>
    decreases s,
{
    if s.len() == 0 {
        Seq::empty()
    } else {
        statements_view(s.drop_last()).push(statement_view(s.last()))
    }
}

pub open spec fn params_view(s: Seq<FuncParam>) -> Seq<FuncParamV> {
    Seq::new(s.len(), |i: int| FuncParamV { param_type: s[i].param_type, param_name: s[i].param_name@ })
}

pub open spec fn func_def_view(f: FuncDef) -> FuncDefV {
    FuncDefV {
        name: f.name@,
        params: params_view(f.params@),
        return_type: f.return_type,
        body: statements_view(f.body@),
    }
}

pub open spec fn func_defs_view(s: Seq<FuncDef>) -> Seq<FuncDefV> {
    Seq::new(s.len(), |i: int| func_def_view(s[i]))
}

pub open spec fn program_view(p: Program) -> ProgramV {
    ProgramV { func_defs: func_defs_view(p.func_defs@) }
}

pub proof fn lemma_exprs_view_push(s: Seq<Expr>, e: Expr)
    ensures
        exprs_view(s.push(e)) == exprs_view(s).push(expr_view(e)),
{
    assert(s.push(e).drop_last() =~= s);
}

pub proof fn lemma_statements_view_push(s: Seq<Statement>, st: Statement)
    ensures
        statements_view(s.push(st)) == statements_view(s).push(statement_view(st)),
{
    assert(s.push(st).drop_last() =~= s);
}

pub proof fn lemma_var_decs_view_push(s: Seq<VarDeclaration>, d: VarDeclaration)
    ensures
        var_decs_view(s.push(d)) == var_decs_view(s).push(var_dec_view(d)),
{
    assert(s.push(d).drop_last() =~= s);
}

} // verus!
