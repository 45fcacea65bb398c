//! The tree-walking evaluator. Statements and expressions are evaluated
//! against the scoped environment; `print` appends the evaluated value to
//! the interpreter's output. All evaluation failures (undefined variable,
//! redeclaration, operand type mismatch, non-block branch, numeric range
//! errors) are fatal: they abort the run with a `RuntimeError`.
//!
//! The whole evaluation is specified by `eval_expr`, `eval_stmt` and
//! `eval_stmts`; each executable method is proved to return exactly what the
//! specification prescribes, and to leave the environment and output in the
//! prescribed state — on the success and failure paths alike.

use vstd::prelude::*;

use crate::ast::{Expr, LiteralValue, Stmt, ValueModel};
use crate::environment::{env_assign, env_lookup, Environment};
use crate::token::TokenType;

verus! {

/// The model of the environment: one name-to-value mapping per scope frame.
pub type EnvModel = Seq<Map<Seq<u8>, ValueModel>>;

/// A fatal evaluation failure.
#[derive(Debug, PartialEq)]
pub enum RuntimeError {
    /// A variable was referenced or assigned that no scope binds.
    UndefinedVariable(Vec<u8>),
    /// A variable was redeclared in the scope that already binds it.
    AlreadyDefined(Vec<u8>),
    /// An operator was applied to operands of the wrong type.
    TypeMismatch(TokenType),
    /// Division by zero.
    DivisionByZero,
    /// An arithmetic result left the 64-bit signed integer range.
    Overflow,
    /// An `if` branch that is not a block statement.
    NonBlockBranch,
    /// A token kind that is no evaluable operator.
    InvalidOperator(TokenType),
}

/// Mathematical model of a fatal evaluation failure.
pub enum RuntimeErrorModel {
    UndefinedVariable(Seq<u8>),
    AlreadyDefined(Seq<u8>),
    TypeMismatch(TokenType),
    DivisionByZero,
    Overflow,
    NonBlockBranch,
    InvalidOperator(TokenType),
}

impl View for RuntimeError {
    type V = RuntimeErrorModel;

    open spec fn view(&self) -> RuntimeErrorModel {
        match self {
            RuntimeError::UndefinedVariable(n) => RuntimeErrorModel::UndefinedVariable(n@),
            RuntimeError::AlreadyDefined(n) => RuntimeErrorModel::AlreadyDefined(n@),
            RuntimeError::TypeMismatch(t) => RuntimeErrorModel::TypeMismatch(*t),
            RuntimeError::DivisionByZero => RuntimeErrorModel::DivisionByZero,
            RuntimeError::Overflow => RuntimeErrorModel::Overflow,
            RuntimeError::NonBlockBranch => RuntimeErrorModel::NonBlockBranch,
            RuntimeError::InvalidOperator(t) => RuntimeErrorModel::InvalidOperator(*t),
        }
    }
}

/// Truthiness: a number is true iff nonzero, a string is always true, a
/// boolean is its own value, nil is always false.
pub open spec fn truthy(v: ValueModel) -> bool {
    match v {
        ValueModel::Number(n) => n != 0,
        ValueModel::Str(_) => true,
        ValueModel::Bool(b) => b,
        ValueModel::Nil => false,
    }
}

/// Value equality as the `==` operator sees it: numbers, booleans and nil
/// compare structurally; every other combination of values — including two
/// strings — is simply not equal, never a type error.
pub open spec fn val_eq(a: ValueModel, b: ValueModel) -> bool {
    match (a, b) {
        (ValueModel::Number(x), ValueModel::Number(y)) => x == y,
        (ValueModel::Bool(x), ValueModel::Bool(y)) => x == y,
        (ValueModel::Nil, ValueModel::Nil) => true,
        _ => false,
    }
}

pub open spec fn abs_int(a: int) -> int {
    if a < 0 {
        -a
    } else {
        a
    }
}

/// Division truncated toward zero, as 64-bit integer division behaves.
pub open spec fn div_trunc(a: int, b: int) -> int
    recommends
        b != 0,
{
    if (a < 0) == (b < 0) {
        abs_int(a) / abs_int(b)
    } else {
        -(abs_int(a) / abs_int(b))
    }
}

pub open spec fn in_i64(n: int) -> bool {
    i64::MIN as int <= n <= i64::MAX as int
}

/// What a binary operator returns on two values: arithmetic on number
/// pairs only (a type error otherwise, and a range error when the result
/// does not fit), equality on any pair of values, and everything else is no
/// evaluable operator.
pub open spec fn eval_binary_op(op: TokenType, a: ValueModel, b: ValueModel) -> Result<
    ValueModel,
    RuntimeErrorModel,
> {
    if op == TokenType::EqualEqual {
        Ok(ValueModel::Bool(val_eq(a, b)))
    } else if op == TokenType::BangEqual {
        Ok(ValueModel::Bool(!val_eq(a, b)))
    } else if op == TokenType::Plus || op == TokenType::Minus || op == TokenType::Star || op
        == TokenType::Slash {
        match (a, b) {
            (ValueModel::Number(x), ValueModel::Number(y)) => {
                if op == TokenType::Plus {
                    if in_i64(x + y) {
                        Ok(ValueModel::Number(x + y))
                    } else {
                        Err(RuntimeErrorModel::Overflow)
                    }
                } else if op == TokenType::Minus {
                    if in_i64(x - y) {
                        Ok(ValueModel::Number(x - y))
                    } else {
                        Err(RuntimeErrorModel::Overflow)
                    }
                } else if op == TokenType::Star {
                    if in_i64(x * y) {
                        Ok(ValueModel::Number(x * y))
                    } else {
                        Err(RuntimeErrorModel::Overflow)
                    }
                } else {
                    if y == 0 {
                        Err(RuntimeErrorModel::DivisionByZero)
                    } else if in_i64(div_trunc(x, y)) {
                        Ok(ValueModel::Number(div_trunc(x, y)))
                    } else {
                        Err(RuntimeErrorModel::Overflow)
                    }
                }
            },
            _ => Err(RuntimeErrorModel::TypeMismatch(op)),
        }
    } else {
        Err(RuntimeErrorModel::InvalidOperator(op))
    }
}

/// What a unary operator returns: `-` negates a number (a type error on any
/// other value), `!` inverts truthiness.
pub open spec fn eval_unary_op(op: TokenType, v: ValueModel) -> Result<
    ValueModel,
    RuntimeErrorModel,
> {
    if op == TokenType::Minus {
        match v {
            ValueModel::Number(n) => {
                if in_i64(-n) {
                    Ok(ValueModel::Number(-n))
                } else {
                    Err(RuntimeErrorModel::Overflow)
                }
            },
            _ => Err(RuntimeErrorModel::TypeMismatch(TokenType::Minus)),
        }
    } else if op == TokenType::Bang {
        Ok(ValueModel::Bool(!truthy(v)))
    } else {
        Err(RuntimeErrorModel::InvalidOperator(op))
    }
}

/// Binding a name in the innermost scope.
pub open spec fn env_define(env: EnvModel, name: Seq<u8>, v: ValueModel) -> EnvModel {
    env.update(env.len() - 1, env.last().insert(name, v))
}

/// An aborted expression evaluation: the error, and the environment as it
/// stood at the failure point.
pub type ExprFailure = (RuntimeErrorModel, EnvModel);

/// An aborted statement evaluation: the error, and the environment and
/// print output as they stood at the failure point.
pub type StmtFailure = (RuntimeErrorModel, EnvModel, Seq<ValueModel>);

/// Evaluating an expression: the value it yields and the environment it
/// leaves behind (assignment is the one expression with an effect).
/// Operands are evaluated fully, left to right, before an operator is
/// applied. A failure carries the environment at the failure point, so the
/// state an aborted evaluation leaves behind is pinned down too.
pub open spec fn eval_expr(env: EnvModel, e: Expr) -> Result<(ValueModel, EnvModel), ExprFailure>
    decreases e,
{
    match e {
        Expr::Literal(v) => Ok((v@, env)),
        Expr::Variable(tok) => match env_lookup(env, tok.lexeme@) {
            Some(v) => Ok((v, env)),
            None => Err((RuntimeErrorModel::UndefinedVariable(tok.lexeme@), env)),
        },
        Expr::Assign { identifier, value } => match eval_expr(env, *value) {
            Ok((v, env1)) => {
                if env_lookup(env1, identifier.lexeme@) is Some {
                    Ok((v, env_assign(env1, identifier.lexeme@, v)))
                } else {
                    Err((RuntimeErrorModel::UndefinedVariable(identifier.lexeme@), env1))
                }
            },
            Err(f) => Err(f),
        },
        Expr::Unary { operator, right } => match eval_expr(env, *right) {
            Ok((v, env1)) => match eval_unary_op(operator, v) {
                Ok(r) => Ok((r, env1)),
                Err(er) => Err((er, env1)),
            },
            Err(f) => Err(f),
        },
        Expr::Binary { left, operator, right } => match eval_expr(env, *left) {
            Ok((lv, env1)) => match eval_expr(env1, *right) {
                Ok((rv, env2)) => match eval_binary_op(operator, lv, rv) {
                    Ok(r) => Ok((r, env2)),
                    Err(er) => Err((er, env2)),
                },
                Err(f) => Err(f),
            },
            Err(f) => Err(f),
        },
        Expr::Grouping(inner) => eval_expr(env, *inner),
    }
}

/// Evaluating a statement: the environment and print output it leaves
/// behind. Loop, function and control-transfer statements are parsed but not
/// evaluated: they leave the state unchanged. A failure carries the
/// environment and output at the failure point; a failing block still
/// discards the scope it pushed.
pub open spec fn eval_stmt(env: EnvModel, out: Seq<ValueModel>, s: Stmt) -> Result<
    (EnvModel, Seq<ValueModel>),
    StmtFailure,
>
    decreases s,
{
    match s {
        Stmt::Expression(e) => match eval_expr(env, e) {
            Ok((_, env1)) => Ok((env1, out)),
            Err((er, enverr)) => Err((er, enverr, out)),
        },
        Stmt::Print(e) => match eval_expr(env, e) {
            Ok((v, env1)) => Ok((env1, out.push(v))),
            Err((er, enverr)) => Err((er, enverr, out)),
        },
        Stmt::Var { name, initializer } => {
            if env.len() > 0 && env.last().contains_key(name.lexeme@) {
                Err((RuntimeErrorModel::AlreadyDefined(name.lexeme@), env, out))
            } else {
                match initializer {
                    Some(e) => match eval_expr(env, e) {
                        Ok((v, env1)) => Ok((env_define(env1, name.lexeme@, v), out)),
                        Err((er, enverr)) => Err((er, enverr, out)),
                    },
                    None => Ok((env_define(env, name.lexeme@, ValueModel::Nil), out)),
                }
            }
        },
        Stmt::Block { stmts } => match eval_stmts(
            env.push(Map::empty()),
            out,
            stmts@,
        ) {
            Ok((env1, out1)) => Ok((env1.drop_last(), out1)),
            Err((er, enverr, outerr)) => Err((er, enverr.drop_last(), outerr)),
        },
        Stmt::If { condition, then_branch, else_branch } => match eval_expr(env, condition) {
            Ok((c, env1)) => {
                if truthy(c) {
                    if *then_branch matches Stmt::Block { .. } {
                        eval_stmt(env1, out, *then_branch)
                    } else {
                        Err((RuntimeErrorModel::NonBlockBranch, env1, out))
                    }
                } else {
                    match else_branch {
                        Some(b) => {
                            if *b matches Stmt::Block { .. } {
                                eval_stmt(env1, out, *b)
                            } else {
                                Err((RuntimeErrorModel::NonBlockBranch, env1, out))
                            }
                        },
                        None => Ok((env1, out)),
                    }
                }
            },
            Err((er, enverr)) => Err((er, enverr, out)),
        },
        _ => Ok((env, out)),
    }
}

/// Evaluating a sequence of statements in order; the first failure aborts.
pub open spec fn eval_stmts(env: EnvModel, out: Seq<ValueModel>, ss: Seq<Stmt>) -> Result<
    (EnvModel, Seq<ValueModel>),
    StmtFailure,
>
    decreases ss,
{
    if ss.len() == 0 {
        Ok((env, out))
    } else {
        match eval_stmt(env, out, ss[0]) {
            Ok((env1, out1)) => eval_stmts(env1, out1, ss.drop_first()),
            Err(f) => Err(f),
        }
    }
}

/// Evaluating one `if` branch: only a block statement is a legal branch
/// body; any other statement shape is a fatal error.
pub open spec fn eval_branch(env: EnvModel, out: Seq<ValueModel>, branch: Stmt) -> Result<
    (EnvModel, Seq<ValueModel>),
    StmtFailure,
> {
    if branch matches Stmt::Block { .. } {
        eval_stmt(env, out, branch)
    } else {
        Err((RuntimeErrorModel::NonBlockBranch, env, out))
    }
}

/// Evaluating an `if` statement from its parts: the condition's truthiness
/// selects exactly one branch.
pub open spec fn eval_if(
    env: EnvModel,
    out: Seq<ValueModel>,
    condition: Expr,
    then_branch: Stmt,
    else_branch: Option<Box<Stmt>>,
) -> Result<(EnvModel, Seq<ValueModel>), StmtFailure> {
    match eval_expr(env, condition) {
        Ok((c, env1)) => {
            if truthy(c) {
                eval_branch(env1, out, then_branch)
            } else {
                match else_branch {
                    Some(b) => eval_branch(env1, out, *b),
                    None => Ok((env1, out)),
                }
            }
        },
        Err((er, enverr)) => Err((er, enverr, out)),
    }
}

/// Evaluating a block from its statements: a fresh scope is pushed, the
/// statements run in order, and the scope is discarded — also on the
/// failure path.
pub open spec fn eval_block(env: EnvModel, out: Seq<ValueModel>, ss: Seq<Stmt>) -> Result<
    (EnvModel, Seq<ValueModel>),
    StmtFailure,
> {
    match eval_stmts(env.push(Map::empty()), out, ss) {
        Ok((env1, out1)) => Ok((env1.drop_last(), out1)),
        Err((er, enverr, outerr)) => Err((er, enverr.drop_last(), outerr)),
    }
}

pub open spec fn out_views(vs: Seq<LiteralValue>) -> Seq<ValueModel> {
    vs.map_values(|v: LiteralValue| v@)
}

/// Evaluation of an expression never changes the number of scope frames,
/// whether it succeeds or aborts.
pub proof fn lemma_eval_expr_env_len(env: EnvModel, e: Expr)
    ensures
        eval_expr(env, e) matches Ok(p) ==> p.1.len() == env.len(),
        eval_expr(env, e) matches Err(f) ==> f.1.len() == env.len(),
    decreases e,
{
    match e {
        Expr::Assign { identifier, value } => {
            lemma_eval_expr_env_len(env, *value);
            match eval_expr(env, *value) {
                Ok(p) => {
                    crate::environment::lemma_env_assign_len(p.1, identifier.lexeme@, p.0);
                },
                Err(_) => {},
            }
        },
        Expr::Unary { operator, right } => {
            lemma_eval_expr_env_len(env, *right);
        },
        Expr::Binary { left, operator, right } => {
            lemma_eval_expr_env_len(env, *left);
            match eval_expr(env, *left) {
                Ok(p) => {
                    lemma_eval_expr_env_len(p.1, *right);
                },
                Err(_) => {},
            }
        },
        Expr::Grouping(inner) => {
            lemma_eval_expr_env_len(env, *inner);
        },
        _ => {},
    }
}

/// Whether two runtime values are equal under the `==` operator.
pub fn values_equal(a: &LiteralValue, b: &LiteralValue) -> (r: bool)
    ensures
        r == val_eq(a@, b@),
{
    match (a, b) {
        (LiteralValue::Number(x), LiteralValue::Number(y)) => *x == *y,
        (LiteralValue::Bool(x), LiteralValue::Bool(y)) => *x == *y,
        (LiteralValue::Nil, LiteralValue::Nil) => true,
        _ => false,
    }
}

/// 64-bit division truncated toward zero, via unsigned magnitudes.
fn div_i64(a: i64, b: i64) -> (r: i64)
    requires
        b != 0,
        !(a == i64::MIN && b == -1),
    ensures
        r as int == div_trunc(a as int, b as int),
{
    let am: u64 = if a >= 0 {
        a as u64
    } else {
        (-(a as i128)) as u64
    };
    let bm: u64 = if b >= 0 {
        b as u64
    } else {
        (-(b as i128)) as u64
    };
    proof {
        assert(am as int == abs_int(a as int));
        assert(bm as int == abs_int(b as int));
        assert(bm >= 1);
    }
    let qm: u64 = am / bm;
    proof {
        assert(qm <= am) by (nonlinear_arith)
            requires
                bm >= 1,
                qm == am / bm,
        ;
        assert(bm >= 2 ==> qm <= am / 2) by (nonlinear_arith)
            requires
                bm >= 1,
                qm == am / bm,
        ;
    }
    if (a < 0) == (b < 0) {
        proof {
            if am == 9223372036854775808u64 {
                assert(a == i64::MIN);
                assert(b < 0);
                assert(bm >= 2);
            }
            assert(qm <= i64::MAX as u64);
        }
        qm as i64
    } else {
        if qm >= 9223372036854775808u64 {
            proof {
                assert(qm == 9223372036854775808u64);
                assert(am == 9223372036854775808u64 && bm == 1);
                assert(a == i64::MIN && b == 1);
            }
            i64::MIN
        } else {
            -(qm as i64)
        }
    }
}

/// Applies a binary operator to two fully evaluated operands.
pub fn apply_binary_op(op: TokenType, a: LiteralValue, b: LiteralValue) -> (r: Result<
    LiteralValue,
    RuntimeError,
>)
    ensures
        eval_binary_op(op, a@, b@) matches Ok(v) ==> (r matches Ok(rv) && rv@ == v),
        eval_binary_op(op, a@, b@) matches Err(e) ==> (r matches Err(re) && re@ == e),
{
    if op == TokenType::EqualEqual {
        let e = values_equal(&a, &b);
        Ok(LiteralValue::Bool(e))
    } else if op == TokenType::BangEqual {
        let e = values_equal(&a, &b);
        Ok(LiteralValue::Bool(!e))
    } else if op == TokenType::Plus || op == TokenType::Minus || op == TokenType::Star || op
        == TokenType::Slash {
        match (a, b) {
            (LiteralValue::Number(x), LiteralValue::Number(y)) => {
                if op == TokenType::Plus {
                    let s: i128 = x as i128 + y as i128;
                    if s < i64::MIN as i128 || s > i64::MAX as i128 {
                        Err(RuntimeError::Overflow)
                    } else {
                        Ok(LiteralValue::Number(s as i64))
                    }
                } else if op == TokenType::Minus {
                    let s: i128 = x as i128 - y as i128;
                    if s < i64::MIN as i128 || s > i64::MAX as i128 {
                        Err(RuntimeError::Overflow)
                    } else {
                        Ok(LiteralValue::Number(s as i64))
                    }
                } else if op == TokenType::Star {
                    proof {
                        assert((x as i128) * (y as i128) <= 0x4000_0000_0000_0000_0000_0000_0000_0000i128
                            && (x as i128) * (y as i128) >= -0x4000_0000_0000_0000_0000_0000_0000_0000i128)
                            by (nonlinear_arith)
                            requires
                                -0x8000_0000_0000_0000i128 <= x as i128 <= 0x7fff_ffff_ffff_ffffi128,
                                -0x8000_0000_0000_0000i128 <= y as i128 <= 0x7fff_ffff_ffff_ffffi128,
                        ;
                    }
                    let s: i128 = x as i128 * y as i128;
                    if s < i64::MIN as i128 || s > i64::MAX as i128 {
                        Err(RuntimeError::Overflow)
                    } else {
                        Ok(LiteralValue::Number(s as i64))
                    }
                } else {
                    if y == 0 {
                        Err(RuntimeError::DivisionByZero)
                    } else if x == i64::MIN && y == -1 {
                        Err(RuntimeError::Overflow)
                    } else {
                        Ok(LiteralValue::Number(div_i64(x, y)))
                    }
                }
            },
            _ => Err(RuntimeError::TypeMismatch(op)),
        }
    } else {
        Err(RuntimeError::InvalidOperator(op))
    }
}

/// The interpreter: the scoped environment the program mutates, and the
/// values its `print` statements have emitted, in order.
pub struct Interpreter {
    pub environment: Environment,
    pub output: Vec<LiteralValue>,
}

impl Interpreter {
    pub fn new() -> (it: Interpreter)
        ensures
            it.environment.wf(),
            it.environment@ =~= seq![Map::<Seq<u8>, ValueModel>::empty()],
            it.output@.len() == 0,
    {
        Interpreter { environment: Environment::new(), output: Vec::new() }
    }

    /// The values printed so far.
    pub fn get_output(&self) -> (r: &Vec<LiteralValue>)
        ensures
            r@ == self.output@,
    {
        &self.output
    }

    pub fn is_truthy(&self, value: &LiteralValue) -> (r: bool)
        ensures
            r == truthy(value@),
    {
        match value {
            LiteralValue::Number(n) => *n != 0,
            LiteralValue::Str(_) => true,
            LiteralValue::Bool(b) => *b,
            LiteralValue::Nil => false,
        }
    }

    /// Evaluates an expression; returns exactly the value `eval_expr`
    /// prescribes and leaves the environment in the prescribed state — on
    /// the failure path too.
    pub fn evaluate_expression(&mut self, expr: &Expr) -> (r: Result<LiteralValue, RuntimeError>)
        requires
            old(self).environment.wf(),
        ensures
            final(self).environment.wf(),
            final(self).environment@.len() == old(self).environment@.len(),
            final(self).output == old(self).output,
            eval_expr(old(self).environment@, *expr) matches Ok(p) ==> (r matches Ok(v) && v@
                == p.0 && final(self).environment@ == p.1),
            eval_expr(old(self).environment@, *expr) matches Err(f) ==> (r matches Err(re) && re@
                == f.0 && final(self).environment@ == f.1),
        decreases expr,
    {
        match expr {
            Expr::Literal(v) => Ok(crate::ast::dup_value(v)),
            Expr::Variable(tok) => match self.environment.get(&tok.lexeme) {
                Some(v) => Ok(v),
                None => Err(
                    RuntimeError::UndefinedVariable(crate::token::clone_bytes(&tok.lexeme)),
                ),
            },
            Expr::Assign { identifier, value } => match self.evaluate_expression(&**value) {
                Ok(v) => match self.environment.get(&identifier.lexeme) {
                    Some(_) => {
                        let dv = crate::ast::dup_value(&v);
                        self.environment.update(&identifier.lexeme, dv);
                        Ok(v)
                    },
                    None => Err(
                        RuntimeError::UndefinedVariable(
                            crate::token::clone_bytes(&identifier.lexeme),
                        ),
                    ),
                },
                Err(e) => Err(e),
            },
            Expr::Unary { operator, right } => match self.evaluate_expression(&**right) {
                Ok(v) => {
                    if *operator == TokenType::Minus {
                        match v {
                            LiteralValue::Number(n) => {
                                if n == i64::MIN {
                                    Err(RuntimeError::Overflow)
                                } else {
                                    Ok(LiteralValue::Number(-n))
                                }
                            },
                            _ => Err(RuntimeError::TypeMismatch(TokenType::Minus)),
                        }
                    } else if *operator == TokenType::Bang {
                        let t = self.is_truthy(&v);
                        Ok(LiteralValue::Bool(!t))
                    } else {
                        Err(RuntimeError::InvalidOperator(*operator))
                    }
                },
                Err(e) => Err(e),
            },
            Expr::Binary { left, operator, right } => match self.evaluate_expression(&**left) {
                Ok(lv) => match self.evaluate_expression(&**right) {
                    Ok(rv) => apply_binary_op(*operator, lv, rv),
                    Err(e) => Err(e),
                },
                Err(e) => Err(e),
            },
            Expr::Grouping(inner) => self.evaluate_expression(&**inner),
        }
    }

    /// Declares a variable in the current scope: fails if the scope already
    /// binds the name; otherwise binds it to the initializer's value, or nil.
    fn evaluate_var(&mut self, name: &crate::token::Token, initializer: &Option<Expr>) -> (r:
        Result<(), RuntimeError>)
        requires
            old(self).environment.wf(),
        ensures
            final(self).environment.wf(),
            final(self).environment@.len() == old(self).environment@.len(),
            final(self).output == old(self).output,
            eval_stmt(
                old(self).environment@,
                out_views(old(self).output@),
                Stmt::Var { name: *name, initializer: *initializer },
            ) matches Ok(p) ==> (r is Ok && final(self).environment@ == p.0 && out_views(
                final(self).output@,
            ) == p.1),
            eval_stmt(
                old(self).environment@,
                out_views(old(self).output@),
                Stmt::Var { name: *name, initializer: *initializer },
            ) matches Err(f) ==> (r matches Err(re) && re@ == f.0 && final(self).environment@
                == f.1 && out_views(final(self).output@) == f.2),
    {
        if self.environment.contains_in_current_scope(&name.lexeme) {
            return Err(RuntimeError::AlreadyDefined(crate::token::clone_bytes(&name.lexeme)));
        }
        let v = match initializer {
            Some(e) => match self.evaluate_expression(e) {
                Ok(v) => v,
                Err(er) => {
                    return Err(er);
                },
            },
            None => LiteralValue::Nil,
        };
        self.environment.set(crate::token::clone_bytes(&name.lexeme), v);
        Ok(())
    }

    /// Runs one `if` branch: only a block statement is a legal branch body.
    fn run_branch(&mut self, branch: &Stmt) -> (r: Result<(), RuntimeError>)
        requires
            old(self).environment.wf(),
        ensures
            final(self).environment.wf(),
            final(self).environment@.len() == old(self).environment@.len(),
            eval_branch(old(self).environment@, out_views(old(self).output@), *branch) matches Ok(
                p,
            ) ==> (r is Ok && final(self).environment@ == p.0 && out_views(final(self).output@)
                == p.1),
            eval_branch(old(self).environment@, out_views(old(self).output@), *branch) matches Err(
                f,
            ) ==> (r matches Err(re) && re@ == f.0 && final(self).environment@ == f.1 && out_views(
                final(self).output@,
            ) == f.2),
        decreases branch,
    {
        match branch {
            Stmt::Block { stmts } => self.evaluate_block(stmts),
            _ => Err(RuntimeError::NonBlockBranch),
        }
    }

    /// Evaluates a block: pushes a fresh scope, runs the statements in
    /// order, and discards the scope — also on the failure path.
    pub fn evaluate_block(&mut self, stmts: &Vec<Stmt>) -> (r: Result<(), RuntimeError>)
        requires
            old(self).environment.wf(),
        ensures
            final(self).environment.wf(),
            final(self).environment@.len() == old(self).environment@.len(),
            eval_block(old(self).environment@, out_views(old(self).output@), stmts@) matches Ok(
                p,
            ) ==> (r is Ok && final(self).environment@ == p.0 && out_views(final(self).output@)
                == p.1),
            eval_block(old(self).environment@, out_views(old(self).output@), stmts@) matches Err(
                f,
            ) ==> (r matches Err(re) && re@ == f.0 && final(self).environment@ == f.1 && out_views(
                final(self).output@,
            ) == f.2),
        decreases stmts@,
    {
        self.environment.push_scope();
        let ghost env_pushed = self.environment@;
        let ghost out0 = out_views(self.output@);
        let mut i: usize = 0;
        proof {
            assert(stmts@.skip(0) =~= stmts@);
        }
        while i < stmts.len()
            invariant
                self.environment.wf(),
                old(self).environment@.len() >= 1,
                self.environment@.len() == old(self).environment@.len() + 1,
                i <= stmts@.len(),
                env_pushed == old(self).environment@.push(Map::<Seq<u8>, ValueModel>::empty()),
                out0 == out_views(old(self).output@),
                eval_stmts(env_pushed, out0, stmts@) == eval_stmts(
                    self.environment@,
                    out_views(self.output@),
                    stmts@.skip(i as int),
                ),
            decreases stmts@.len() - i,
        {
            proof {
                assert(stmts@.skip(i as int)[0] == stmts@[i as int]);
            }
            match self.evaluate(&stmts[i]) {
                Ok(_) => {
                    proof {
                        assert(stmts@.skip(i as int).drop_first() =~= stmts@.skip(i + 1 as int));
                    }
                    i = i + 1;
                },
                Err(e) => {
                    self.environment.pop_scope();
                    return Err(e);
                },
            }
        }
        proof {
            assert(stmts@.skip(stmts@.len() as int) =~= Seq::<Stmt>::empty());
        }
        self.environment.pop_scope();
        Ok(())
    }

    /// Evaluates an `if` statement from its parts: the condition's
    /// truthiness selects exactly one branch, and each branch must be a
    /// block statement.
    pub fn evaluate_if_stmt(
        &mut self,
        condition: &Expr,
        then_branch: &Stmt,
        else_branch: &Option<Box<Stmt>>,
    ) -> (r: Result<(), RuntimeError>)
        requires
            old(self).environment.wf(),
        ensures
            final(self).environment.wf(),
            final(self).environment@.len() == old(self).environment@.len(),
            eval_if(
                old(self).environment@,
                out_views(old(self).output@),
                *condition,
                *then_branch,
                *else_branch,
            ) matches Ok(p) ==> (r is Ok && final(self).environment@ == p.0 && out_views(
                final(self).output@,
            ) == p.1),
            eval_if(
                old(self).environment@,
                out_views(old(self).output@),
                *condition,
                *then_branch,
                *else_branch,
            ) matches Err(f) ==> (r matches Err(re) && re@ == f.0 && final(self).environment@
                == f.1 && out_views(final(self).output@) == f.2),
    {
        match self.evaluate_expression(condition) {
            Ok(c) => {
                if self.is_truthy(&c) {
                    self.run_branch(then_branch)
                } else {
                    match else_branch {
                        Some(b) => self.run_branch(&**b),
                        None => Ok(()),
                    }
                }
            },
            Err(e) => Err(e),
        }
    }

    /// Evaluates one statement; returns exactly what `eval_stmt` prescribes
    /// and leaves the environment and output in the prescribed state.
    pub fn evaluate(&mut self, stmt: &Stmt) -> (r: Result<(), RuntimeError>)
        requires
            old(self).environment.wf(),
        ensures
            final(self).environment.wf(),
            final(self).environment@.len() == old(self).environment@.len(),
            eval_stmt(old(self).environment@, out_views(old(self).output@), *stmt) matches Ok(
                p,
            ) ==> (r is Ok && final(self).environment@ == p.0 && out_views(final(self).output@)
                == p.1),
            eval_stmt(old(self).environment@, out_views(old(self).output@), *stmt) matches Err(
                f,
            ) ==> (r matches Err(re) && re@ == f.0 && final(self).environment@ == f.1 && out_views(
                final(self).output@,
            ) == f.2),
        decreases stmt,
    {
        match stmt {
            Stmt::Expression(e) => match self.evaluate_expression(e) {
                Ok(_) => Ok(()),
                Err(er) => Err(er),
            },
            Stmt::Print(e) => match self.evaluate_expression(e) {
                Ok(v) => {
                    let ghost prev = out_views(self.output@);
                    let ghost vv = v@;
                    self.output.push(v);
                    proof {
                        assert(out_views(self.output@) =~= prev.push(vv));
                    }
                    Ok(())
                },
                Err(er) => Err(er),
            },
            Stmt::Var { name, initializer } => self.evaluate_var(name, initializer),
            Stmt::Block { stmts } => self.evaluate_block(stmts),
            Stmt::If { condition, then_branch, else_branch } => {
                match self.evaluate_expression(condition) {
                    Ok(c) => {
                        if self.is_truthy(&c) {
                            self.run_branch(&**then_branch)
                        } else {
                            match else_branch {
                                Some(b) => self.run_branch(&**b),
                                None => Ok(()),
                            }
                        }
                    },
                    Err(er) => Err(er),
                }
            },
            _ => Ok(()),
        }
    }

    /// Runs a whole program: evaluates the top-level statements in order;
    /// the first failure aborts the run.
    pub fn interpret(&mut self, stmts: &Vec<Stmt>) -> (r: Result<(), RuntimeError>)
        requires
            old(self).environment.wf(),
        ensures
            final(self).environment.wf(),
            final(self).environment@.len() == old(self).environment@.len(),
            eval_stmts(old(self).environment@, out_views(old(self).output@), stmts@) matches Ok(
                p,
            ) ==> (r is Ok && final(self).environment@ == p.0 && out_views(final(self).output@)
                == p.1),
            eval_stmts(old(self).environment@, out_views(old(self).output@), stmts@) matches Err(
                f,
            ) ==> (r matches Err(re) && re@ == f.0 && final(self).environment@ == f.1 && out_views(
                final(self).output@,
            ) == f.2),
    {
        let ghost env0 = self.environment@;
        let ghost out0 = out_views(self.output@);
        let mut i: usize = 0;
        proof {
            assert(stmts@.skip(0) =~= stmts@);
        }
        while i < stmts.len()
            invariant
                self.environment.wf(),
                self.environment@.len() == old(self).environment@.len(),
                i <= stmts@.len(),
                env0 == old(self).environment@,
                out0 == out_views(old(self).output@),
                eval_stmts(env0, out0, stmts@) == eval_stmts(
                    self.environment@,
                    out_views(self.output@),
                    stmts@.skip(i as int),
                ),
            decreases stmts@.len() - i,
        {
            proof {
                assert(stmts@.skip(i as int)[0] == stmts@[i as int]);
            }
            match self.evaluate(&stmts[i]) {
                Ok(_) => {
                    proof {
                        assert(stmts@.skip(i as int).drop_first() =~= stmts@.skip(i + 1 as int));
                    }
                    i = i + 1;
                },
                Err(e) => {
                    return Err(e);
                },
            }
        }
        proof {
            assert(stmts@.skip(stmts@.len() as int) =~= Seq::<Stmt>::empty());
        }
        Ok(())
    }
}

/// An `if` statement evaluates exactly as `eval_if` of its parts.
pub proof fn lemma_eval_stmt_if(
    env: EnvModel,
    out: Seq<ValueModel>,
    condition: Expr,
    then_branch: Box<Stmt>,
    else_branch: Option<Box<Stmt>>,
)
    ensures
        eval_stmt(env, out, Stmt::If { condition, then_branch, else_branch }) == eval_if(
            env,
            out,
            condition,
            *then_branch,
            else_branch,
        ),
{
}

/// Law: a declaration is rejected exactly when the current (innermost)
/// scope already binds the name. The rejection is fatal and happens before
/// the initializer is looked at: whatever the initializer — even one whose
/// own evaluation would fail — the result is the redeclaration error with
/// the environment and output unchanged. Otherwise the declaration binds
/// the name to the initializer's value, or to nil when there is none.
pub proof fn lemma_redeclaration(
    env: EnvModel,
    out: Seq<ValueModel>,
    name: crate::token::Token,
    initializer: Option<Expr>,
)
    requires
        env.len() > 0,
    ensures
        env.last().contains_key(name.lexeme@) ==> eval_stmt(
            env,
            out,
            Stmt::Var { name, initializer },
        ) == Err::<(EnvModel, Seq<ValueModel>), StmtFailure>(
            (RuntimeErrorModel::AlreadyDefined(name.lexeme@), env, out),
        ),
        !env.last().contains_key(name.lexeme@) && initializer is None ==> eval_stmt(
            env,
            out,
            Stmt::Var { name, initializer },
        ) == Ok::<(EnvModel, Seq<ValueModel>), StmtFailure>(
            (env_define(env, name.lexeme@, ValueModel::Nil), out),
        ),
        !env.last().contains_key(name.lexeme@) ==> (initializer matches Some(e) ==> (eval_expr(
            env,
            e,
        ) matches Ok(p) ==> eval_stmt(env, out, Stmt::Var { name, initializer }) == Ok::<
            (EnvModel, Seq<ValueModel>),
            StmtFailure,
        >((env_define(p.1, name.lexeme@, p.0), out)))),
{
}

/// Law: an `if` whose selected branch is not a block statement is a fatal
/// error, whichever branch the condition selects.
pub proof fn lemma_non_block_branch(
    env: EnvModel,
    out: Seq<ValueModel>,
    condition: Expr,
    then_branch: Stmt,
    else_branch: Option<Box<Stmt>>,
)
    ensures
        eval_expr(env, condition) matches Ok(p) ==> (truthy(p.0) && !(then_branch matches
            Stmt::Block { .. }) ==> eval_if(env, out, condition, then_branch, else_branch)
            == Err::<(EnvModel, Seq<ValueModel>), StmtFailure>(
            (RuntimeErrorModel::NonBlockBranch, p.1, out),
        )),
        eval_expr(env, condition) matches Ok(p) ==> (!truthy(p.0) ==> (else_branch matches Some(
            b,
        ) ==> (!((*b) matches Stmt::Block { .. }) ==> eval_if(
            env,
            out,
            condition,
            then_branch,
            else_branch,
        ) == Err::<(EnvModel, Seq<ValueModel>), StmtFailure>(
            (RuntimeErrorModel::NonBlockBranch, p.1, out),
        )))),
{
}

/// The kind of a value: number, string, boolean or nil.
pub open spec fn value_kind(v: ValueModel) -> int {
    match v {
        ValueModel::Number(_) => 0,
        ValueModel::Str(_) => 1,
        ValueModel::Bool(_) => 2,
        ValueModel::Nil => 3,
    }
}

/// Law: equality across mismatched value kinds evaluates to false — and
/// inequality to true — never to a type error.
pub proof fn lemma_equality_across_kinds(a: ValueModel, b: ValueModel)
    requires
        value_kind(a) != value_kind(b),
    ensures
        eval_binary_op(TokenType::EqualEqual, a, b) == Ok::<ValueModel, RuntimeErrorModel>(
            ValueModel::Bool(false),
        ),
        eval_binary_op(TokenType::BangEqual, a, b) == Ok::<ValueModel, RuntimeErrorModel>(
            ValueModel::Bool(true),
        ),
{
}

} // verus!
