//! The abstract syntax tree: runtime literal values, expressions and
//! statements. Each node exclusively owns its children.

use vstd::prelude::*;

use crate::token::{Token, TokenModel, TokenType};

verus! {

/// A runtime scalar value. Numbers are 64-bit signed integers; values are
/// always copied, never aliased.
#[derive(Debug, PartialEq, Clone)]
pub enum LiteralValue {
    Number(i64),
    Str(Vec<u8>),
    Bool(bool),
    Nil,
}

/// Mathematical model of a runtime value.
pub enum ValueModel {
    Number(int),
    Str(Seq<u8>),
    Bool(bool),
    Nil,
}

impl View for LiteralValue {
    type V = ValueModel;

    open spec fn view(&self) -> ValueModel {
        match self {
            LiteralValue::Number(n) => ValueModel::Number(*n as int),
            LiteralValue::Str(s) => ValueModel::Str(s@),
            LiteralValue::Bool(b) => ValueModel::Bool(*b),
            LiteralValue::Nil => ValueModel::Nil,
        }
    }
}

/// An owned copy of a value, equal to it in the model.
pub fn dup_value(v: &LiteralValue) -> (r: LiteralValue)
    ensures
        r@ == v@,
{
    match v {
        LiteralValue::Number(n) => LiteralValue::Number(*n),
        LiteralValue::Str(s) => LiteralValue::Str(crate::token::clone_bytes(s)),
        LiteralValue::Bool(b) => LiteralValue::Bool(*b),
        LiteralValue::Nil => LiteralValue::Nil,
    }
}

/// An expression node.
#[derive(Debug, PartialEq)]
pub enum Expr {
    /// A literal value.
    Literal(LiteralValue),
    /// A variable reference, holding its identifier token.
    Variable(Token),
    /// An assignment `identifier = value`; assignment is an expression whose
    /// result is the assigned value.
    Assign { identifier: Token, value: Box<Expr> },
    /// A unary operator expression, e.g. `-x` or `!flag`.
    Unary { operator: TokenType, right: Box<Expr> },
    /// A binary operator expression, e.g. `x + y`.
    Binary { left: Box<Expr>, operator: TokenType, right: Box<Expr> },
    /// A parenthesized expression.
    Grouping(Box<Expr>),
}

/// A statement node.
#[derive(Debug, PartialEq)]
pub enum Stmt {
    /// `expression ;`
    Expression(Expr),
    /// `print expression ;`
    Print(Expr),
    /// `var IDENTIFIER ( "=" expression )? ;`
    Var { name: Token, initializer: Option<Expr> },
    /// `{ declaration* }`
    Block { stmts: Vec<Stmt> },
    /// `if ( condition ) then_branch ( else else_branch )?`
    If { condition: Expr, then_branch: Box<Stmt>, else_branch: Option<Box<Stmt>> },
    /// `while ( condition ) body` — parsed but not evaluated.
    While { condition: Expr, body: Box<Stmt> },
    /// `for ( init ; cond ; inc ) body` — parsed but not evaluated.
    For {
        initializer: Option<Box<Stmt>>,
        condition: Option<Expr>,
        increment: Option<Expr>,
        body: Box<Stmt>,
    },
    /// `fun IDENTIFIER ( params ) { body }` — parsed but not evaluated.
    Function { name: Token, params: Vec<Token>, body: Box<Stmt> },
    /// `return expression? ;` — parsed but not evaluated.
    Return { keyword: Token, value: Option<Expr> },
    /// `break ;` — parsed but not evaluated.
    Break { keyword: Token },
    /// `continue ;` — parsed but not evaluated.
    Continue { keyword: Token },
}

/// Mathematical model of an expression node.
pub enum ExprModel {
    Literal(ValueModel),
    Variable(TokenModel),
    Assign { identifier: TokenModel, value: Box<ExprModel> },
    Unary { operator: TokenType, right: Box<ExprModel> },
    Binary { left: Box<ExprModel>, operator: TokenType, right: Box<ExprModel> },
    Grouping(Box<ExprModel>),
}

/// Mathematical model of a statement node.
pub enum StmtModel {
    Expression(ExprModel),
    Print(ExprModel),
    Var { name: TokenModel, initializer: Option<ExprModel> },
    Block { stmts: Seq<StmtModel> },
    If { condition: ExprModel, then_branch: Box<StmtModel>, else_branch: Option<Box<StmtModel>> },
    While { condition: ExprModel, body: Box<StmtModel> },
    For {
        initializer: Option<Box<StmtModel>>,
        condition: Option<ExprModel>,
        increment: Option<ExprModel>,
        body: Box<StmtModel>,
    },
    Function { name: TokenModel, params: Seq<TokenModel>, body: Box<StmtModel> },
    Return { keyword: TokenModel, value: Option<ExprModel> },
    Break { keyword: TokenModel },
    Continue { keyword: TokenModel },
}

pub open spec fn expr_view(e: Expr) -> ExprModel
    decreases e,
{
    match e {
        Expr::Literal(v) => ExprModel::Literal(v@),
        Expr::Variable(t) => ExprModel::Variable(t@),
        Expr::Assign { identifier, value } => ExprModel::Assign {
            identifier: identifier@,
            value: Box::new(expr_view(*value)),
        },
        Expr::Unary { operator, right } => ExprModel::Unary {
            operator,
            right: Box::new(expr_view(*right)),
        },
        Expr::Binary { left, operator, right } => ExprModel::Binary {
            left: Box::new(expr_view(*left)),
            operator,
            right: Box::new(expr_view(*right)),
        },
        Expr::Grouping(inner) => ExprModel::Grouping(Box::new(expr_view(*inner))),
    }
}

impl View for Expr {
    type V = ExprModel;

    open spec fn view(&self) -> ExprModel {
        expr_view(*self)
    }
}

pub open spec fn opt_expr_view(o: Option<Expr>) -> Option<ExprModel> {
    match o {
        Some(e) => Some(expr_view(e)),
        None => None,
    }
}

pub open spec fn tokens_view(ts: Seq<Token>) -> Seq<TokenModel> {
    ts.map_values(|t: Token| t@)
}

pub open spec fn stmt_view(s: Stmt) -> StmtModel
    decreases s,
{
    match s {
        Stmt::Expression(e) => StmtModel::Expression(expr_view(e)),
        Stmt::Print(e) => StmtModel::Print(expr_view(e)),
        Stmt::Var { name, initializer } => StmtModel::Var {
            name: name@,
            initializer: opt_expr_view(initializer),
        },
        Stmt::Block { stmts } => StmtModel::Block { stmts: stmts_view(stmts@) },
        Stmt::If { condition, then_branch, else_branch } => StmtModel::If {
            condition: expr_view(condition),
            then_branch: Box::new(stmt_view(*then_branch)),
            else_branch: match else_branch {
                Some(b) => Some(Box::new(stmt_view(*b))),
                None => None,
            },
        },
        Stmt::While { condition, body } => StmtModel::While {
            condition: expr_view(condition),
            body: Box::new(stmt_view(*body)),
        },
        Stmt::For { initializer, condition, increment, body } => StmtModel::For {
            initializer: match initializer {
                Some(b) => Some(Box::new(stmt_view(*b))),
                None => None,
            },
            condition: opt_expr_view(condition),
            increment: opt_expr_view(increment),
            body: Box::new(stmt_view(*body)),
        },
        Stmt::Function { name, params, body } => StmtModel::Function {
            name: name@,
            params: tokens_view(params@),
            body: Box::new(stmt_view(*body)),
        },
        Stmt::Return { keyword, value } => StmtModel::Return {
            keyword: keyword@,
            value: opt_expr_view(value),
        },
        Stmt::Break { keyword } => StmtModel::Break { keyword: keyword@ },
        Stmt::Continue { keyword } => StmtModel::Continue { keyword: keyword@ },
    }
}

/// The models of a sequence of statements, in order.
pub open spec fn stmts_view(ss: Seq<Stmt>) -> Seq<StmtModel>
    decreases ss,
{
    if ss.len() == 0 {
        seq![]
    } else {
        seq![stmt_view(ss[0])] + stmts_view(ss.drop_first())
    }
}

impl View for Stmt {
    type V = StmtModel;

    open spec fn view(&self) -> StmtModel {
        stmt_view(*self)
    }
}

} // verus!
