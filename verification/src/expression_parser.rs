//! The expression grammar, in descending precedence: assignment, equality,
//! comparison, term, factor, unary, primary. All binary-operator tiers are
//! left-associative; assignment is right-associative and reinterprets the
//! token just before `=` as the assignment target (it does not check that
//! the left expression was a variable reference).
//!
//! Each production is specified by a spec function over the token models;
//! the executable parser is proved to build exactly the specified tree, to
//! leave the cursor at the specified position, and to record exactly the
//! specified diagnostics.

use vstd::prelude::*;

use crate::ast::{Expr, ExprModel, LiteralValue, ValueModel};
use crate::parser::{
    adv, bump, consume_spec, err_views, mx, perr, tok_at, ParseErrorKind, ParseErrorModel, Parser,
};
use crate::token::{TokenModel, TokenType};

verus! {

/// Tokens left to consume; the measure the recursive descent decreases.
pub open spec fn rem(toks: Seq<TokenModel>, pos: int) -> int {
    if pos >= toks.len() {
        0
    } else {
        toks.len() - pos
    }
}

/// The outcome of parsing one expression production: the tree built, the new
/// cursor, and the diagnostics recorded.
pub struct PExpr {
    pub e: ExprModel,
    pub pos: int,
    pub errs: Seq<ParseErrorModel>,
}

/// The numeric value of a Number lexeme: its leading digit run read in
/// decimal, saturating at the largest 64-bit integer. Fractional digits are
/// kept in the lexeme but do not contribute to the value.
pub open spec fn num_value(lex: Seq<u8>, i: int, acc: i64) -> i64
    decreases lex.len() - i,
{
    if 0 <= i < lex.len() && crate::scanner::is_digit(lex[i]) {
        let next = acc as int * 10 + (lex[i] - 48);
        if next > i64::MAX as int {
            i64::MAX
        } else {
            num_value(lex, i + 1, next as i64)
        }
    } else {
        acc
    }
}

/// Reads a Number lexeme's value.
pub fn lex_to_number(lex: &Vec<u8>) -> (n: i64)
    ensures
        n == num_value(lex@, 0, 0),
{
    let mut acc: i64 = 0;
    let mut i: usize = 0;
    while i < lex.len()
        invariant
            0 <= acc,
            i <= lex@.len(),
            num_value(lex@, 0, 0) == num_value(lex@, i as int, acc),
        decreases lex@.len() - i,
    {
        let c = lex[i];
        if 48 <= c && c <= 57 {
            let next: i128 = acc as i128 * 10 + (c - 48) as i128;
            if next > i64::MAX as i128 {
                return i64::MAX;
            }
            acc = next as i64;
            i = i + 1;
        } else {
            return acc;
        }
    }
    acc
}

/// primary → NUMBER | STRING | "true" | "false" | "nil" | "(" expression ")"
/// | IDENTIFIER. On any other token: a diagnostic, a nil literal, and no
/// token is consumed.
pub open spec fn parse_primary_spec(toks: Seq<TokenModel>, pos: int) -> PExpr
    decreases rem(toks, pos), 1int,
{
    let t = tok_at(toks, pos);
    if t.ty == TokenType::False {
        PExpr { e: ExprModel::Literal(ValueModel::Bool(false)), pos: adv(toks, pos), errs: seq![] }
    } else if t.ty == TokenType::True {
        PExpr { e: ExprModel::Literal(ValueModel::Bool(true)), pos: adv(toks, pos), errs: seq![] }
    } else if t.ty == TokenType::Nil {
        PExpr { e: ExprModel::Literal(ValueModel::Nil), pos: adv(toks, pos), errs: seq![] }
    } else if t.ty == TokenType::Number {
        PExpr {
            e: ExprModel::Literal(ValueModel::Number(num_value(t.lexeme, 0, 0) as int)),
            pos: adv(toks, pos),
            errs: seq![],
        }
    } else if t.ty == TokenType::Str {
        PExpr { e: ExprModel::Literal(ValueModel::Str(t.lexeme)), pos: adv(toks, pos), errs: seq![] }
    } else if t.ty == TokenType::LeftParen && pos < toks.len() {
        let r = parse_expression_spec(toks, pos + 1);
        let c = consume_spec(toks, r.pos, TokenType::RightParen, ParseErrorKind::ExpectRParenAfterExpr);
        PExpr { e: ExprModel::Grouping(Box::new(r.e)), pos: c.pos, errs: r.errs + c.errs }
    } else if t.ty == TokenType::Identifier {
        PExpr { e: ExprModel::Variable(t), pos: adv(toks, pos), errs: seq![] }
    } else {
        PExpr {
            e: ExprModel::Literal(ValueModel::Nil),
            pos,
            errs: seq![perr(t, ParseErrorKind::ExpectedExpression)],
        }
    }
}

/// unary → ("!" | "-") unary | primary
pub open spec fn parse_unary_spec(toks: Seq<TokenModel>, pos: int) -> PExpr
    decreases rem(toks, pos), 2int,
{
    let t = tok_at(toks, pos);
    if (t.ty == TokenType::Bang || t.ty == TokenType::Minus) && pos < toks.len() {
        let r = parse_unary_spec(toks, pos + 1);
        PExpr {
            e: ExprModel::Unary { operator: t.ty, right: Box::new(r.e) },
            pos: r.pos,
            errs: r.errs,
        }
    } else {
        parse_primary_spec(toks, pos)
    }
}

/// The left-associative continuation of factor: `(("*" | "/") unary)*`.
pub open spec fn parse_factor_rest_spec(toks: Seq<TokenModel>, pos: int, acc: ExprModel) -> PExpr
    decreases rem(toks, pos), 3int,
{
    let t = tok_at(toks, pos);
    if (t.ty == TokenType::Star || t.ty == TokenType::Slash) && pos < toks.len() {
        let r = parse_unary_spec(toks, pos + 1);
        let rr = parse_factor_rest_spec(
            toks,
            bump(pos, r.pos),
            ExprModel::Binary { left: Box::new(acc), operator: t.ty, right: Box::new(r.e) },
        );
        PExpr { e: rr.e, pos: rr.pos, errs: r.errs + rr.errs }
    } else {
        PExpr { e: acc, pos, errs: seq![] }
    }
}

/// factor → unary (("*" | "/") unary)*
pub open spec fn parse_factor_spec(toks: Seq<TokenModel>, pos: int) -> PExpr
    decreases rem(toks, pos), 4int,
{
    let r = parse_unary_spec(toks, pos);
    let rr = parse_factor_rest_spec(toks, mx(pos, r.pos), r.e);
    PExpr { e: rr.e, pos: rr.pos, errs: r.errs + rr.errs }
}

/// The left-associative continuation of term: `(("+" | "-") factor)*`.
pub open spec fn parse_term_rest_spec(toks: Seq<TokenModel>, pos: int, acc: ExprModel) -> PExpr
    decreases rem(toks, pos), 5int,
{
    let t = tok_at(toks, pos);
    if (t.ty == TokenType::Plus || t.ty == TokenType::Minus) && pos < toks.len() {
        let r = parse_factor_spec(toks, pos + 1);
        let rr = parse_term_rest_spec(
            toks,
            bump(pos, r.pos),
            ExprModel::Binary { left: Box::new(acc), operator: t.ty, right: Box::new(r.e) },
        );
        PExpr { e: rr.e, pos: rr.pos, errs: r.errs + rr.errs }
    } else {
        PExpr { e: acc, pos, errs: seq![] }
    }
}

/// term → factor (("+" | "-") factor)*
pub open spec fn parse_term_spec(toks: Seq<TokenModel>, pos: int) -> PExpr
    decreases rem(toks, pos), 6int,
{
    let r = parse_factor_spec(toks, pos);
    let rr = parse_term_rest_spec(toks, mx(pos, r.pos), r.e);
    PExpr { e: rr.e, pos: rr.pos, errs: r.errs + rr.errs }
}

/// The left-associative continuation of comparison:
/// `((">" | ">=" | "<" | "<=") term)*`.
pub open spec fn parse_comparison_rest_spec(toks: Seq<TokenModel>, pos: int, acc: ExprModel) -> PExpr
    decreases rem(toks, pos), 7int,
{
    let t = tok_at(toks, pos);
    if (t.ty == TokenType::Greater || t.ty == TokenType::GreaterEqual || t.ty == TokenType::Less
        || t.ty == TokenType::LessEqual) && pos < toks.len() {
        let r = parse_term_spec(toks, pos + 1);
        let rr = parse_comparison_rest_spec(
            toks,
            bump(pos, r.pos),
            ExprModel::Binary { left: Box::new(acc), operator: t.ty, right: Box::new(r.e) },
        );
        PExpr { e: rr.e, pos: rr.pos, errs: r.errs + rr.errs }
    } else {
        PExpr { e: acc, pos, errs: seq![] }
    }
}

/// comparison → term ((">" | ">=" | "<" | "<=") term)*
pub open spec fn parse_comparison_spec(toks: Seq<TokenModel>, pos: int) -> PExpr
    decreases rem(toks, pos), 8int,
{
    let r = parse_term_spec(toks, pos);
    let rr = parse_comparison_rest_spec(toks, mx(pos, r.pos), r.e);
    PExpr { e: rr.e, pos: rr.pos, errs: r.errs + rr.errs }
}

/// The left-associative continuation of equality: `(("!=" | "==") comparison)*`.
pub open spec fn parse_equality_rest_spec(toks: Seq<TokenModel>, pos: int, acc: ExprModel) -> PExpr
    decreases rem(toks, pos), 9int,
{
    let t = tok_at(toks, pos);
    if (t.ty == TokenType::BangEqual || t.ty == TokenType::EqualEqual) && pos < toks.len() {
        let r = parse_comparison_spec(toks, pos + 1);
        let rr = parse_equality_rest_spec(
            toks,
            bump(pos, r.pos),
            ExprModel::Binary { left: Box::new(acc), operator: t.ty, right: Box::new(r.e) },
        );
        PExpr { e: rr.e, pos: rr.pos, errs: r.errs + rr.errs }
    } else {
        PExpr { e: acc, pos, errs: seq![] }
    }
}

/// equality → comparison (("!=" | "==") comparison)*
#[verifier::opaque]
pub open spec fn parse_equality_spec(toks: Seq<TokenModel>, pos: int) -> PExpr
    decreases rem(toks, pos), 10int,
{
    let r = parse_comparison_spec(toks, pos);
    let rr = parse_equality_rest_spec(toks, mx(pos, r.pos), r.e);
    PExpr { e: rr.e, pos: rr.pos, errs: r.errs + rr.errs }
}

/// The assignment continuation: when `=` follows the parsed left side, the
/// token just before it becomes the target and the value is parsed as an
/// expression; otherwise the left side stands.
pub open spec fn parse_assignment_tail_spec(toks: Seq<TokenModel>, pos: int, acc: ExprModel) -> PExpr
    decreases rem(toks, pos), 10int,
{
    if tok_at(toks, pos).ty == TokenType::Equal && pos >= 1 && pos < toks.len() {
        let v = parse_expression_spec(toks, pos + 1);
        PExpr {
            e: ExprModel::Assign { identifier: tok_at(toks, pos - 1), value: Box::new(v.e) },
            pos: v.pos,
            errs: v.errs,
        }
    } else {
        PExpr { e: acc, pos, errs: seq![] }
    }
}

/// assignment → equality | IDENTIFIER "=" assignment. The target is the
/// token just before `=`, whatever expression was parsed on the left: the
/// parser does not check that it was a variable reference.
pub open spec fn parse_assignment_spec(toks: Seq<TokenModel>, pos: int) -> PExpr
    decreases rem(toks, pos), 11int,
{
    let r = parse_equality_spec(toks, pos);
    let t = parse_assignment_tail_spec(toks, mx(pos, r.pos), r.e);
    PExpr { e: t.e, pos: t.pos, errs: r.errs + t.errs }
}

/// expression → assignment
pub open spec fn parse_expression_spec(toks: Seq<TokenModel>, pos: int) -> PExpr
    decreases rem(toks, pos), 12int,
{
    parse_assignment_spec(toks, pos)
}

impl Parser {
    /// expression → assignment
    #[verifier::rlimit(100)]
    pub fn parse_expression(&mut self) -> (e: Expr)
        requires
            old(self).wf(),
        ensures
            final(self).wf(),
            final(self).tokens == old(self).tokens,
            final(self).current >= old(self).current,
            ({
                let r = parse_expression_spec(old(self).toks(), old(self).current as int);
                &&& e@ == r.e
                &&& final(self).current as int == r.pos
                &&& err_views(final(self).errors@) =~= err_views(old(self).errors@) + r.errs
            }),
        decreases rem(self.toks(), self.current as int), 12int,
    {
        self.parse_assignment()
    }

    /// assignment → equality | IDENTIFIER "=" assignment
    #[verifier::rlimit(100)]
    #[verifier::spinoff_prover]
    fn parse_assignment(&mut self) -> (e: Expr)
        requires
            old(self).wf(),
        ensures
            final(self).wf(),
            final(self).tokens == old(self).tokens,
            final(self).current >= old(self).current,
            ({
                let r = parse_assignment_spec(old(self).toks(), old(self).current as int);
                &&& e@ == r.e
                &&& final(self).current as int == r.pos
                &&& err_views(final(self).errors@) =~= err_views(old(self).errors@) + r.errs
            }),
        decreases rem(self.toks(), self.current as int), 11int,
    {
        let expr = self.parse_equality();
        self.parse_assignment_tail(expr)
    }

    #[verifier::rlimit(100)]
    fn parse_assignment_tail(&mut self, acc: Expr) -> (e: Expr)
        requires
            old(self).wf(),
        ensures
            final(self).wf(),
            final(self).tokens == old(self).tokens,
            final(self).current >= old(self).current,
            ({
                let r = parse_assignment_tail_spec(old(self).toks(), old(self).current as int, acc@);
                &&& e@ == r.e
                &&& final(self).current as int == r.pos
                &&& err_views(final(self).errors@) =~= err_views(old(self).errors@) + r.errs
            }),
        decreases rem(self.toks(), self.current as int), 10int,
    {
        if self.check(TokenType::Equal) && self.current >= 1 {
            let ident = self.previous().duplicate();
            let _ = self.advance();
            let value = self.parse_expression();
            Expr::Assign { identifier: ident, value: Box::new(value) }
        } else {
            acc
        }
    }

    /// equality → comparison (("!=" | "==") comparison)*
    #[verifier::rlimit(100)]
    pub fn parse_equality(&mut self) -> (e: Expr)
        requires
            old(self).wf(),
        ensures
            final(self).wf(),
            final(self).tokens == old(self).tokens,
            final(self).current >= old(self).current,
            ({
                let r = parse_equality_spec(old(self).toks(), old(self).current as int);
                &&& e@ == r.e
                &&& final(self).current as int == r.pos
                &&& err_views(final(self).errors@) =~= err_views(old(self).errors@) + r.errs
            }),
        decreases rem(self.toks(), self.current as int), 10int,
    {
        proof {
            reveal(parse_equality_spec);
        }
        let first = self.parse_comparison();
        self.parse_equality_rest(first)
    }

    #[verifier::rlimit(100)]
    fn parse_equality_rest(&mut self, acc: Expr) -> (e: Expr)
        requires
            old(self).wf(),
        ensures
            final(self).wf(),
            final(self).tokens == old(self).tokens,
            final(self).current >= old(self).current,
            ({
                let r = parse_equality_rest_spec(old(self).toks(), old(self).current as int, acc@);
                &&& e@ == r.e
                &&& final(self).current as int == r.pos
                &&& err_views(final(self).errors@) =~= err_views(old(self).errors@) + r.errs
            }),
        decreases rem(self.toks(), self.current as int), 9int,
    {
        if self.check(TokenType::BangEqual) || self.check(TokenType::EqualEqual) {
            let op = self.peek().get_type();
            let _ = self.advance();
            let right = self.parse_comparison();
            self.parse_equality_rest(
                Expr::Binary { left: Box::new(acc), operator: op, right: Box::new(right) },
            )
        } else {
            acc
        }
    }

    /// comparison → term ((">" | ">=" | "<" | "<=") term)*
    #[verifier::rlimit(100)]
    #[verifier::spinoff_prover]
    pub fn parse_comparison(&mut self) -> (e: Expr)
        requires
            old(self).wf(),
        ensures
            final(self).wf(),
            final(self).tokens == old(self).tokens,
            final(self).current >= old(self).current,
            ({
                let r = parse_comparison_spec(old(self).toks(), old(self).current as int);
                &&& e@ == r.e
                &&& final(self).current as int == r.pos
                &&& err_views(final(self).errors@) =~= err_views(old(self).errors@) + r.errs
            }),
        decreases rem(self.toks(), self.current as int), 8int,
    {
        let first = self.parse_term();
        self.parse_comparison_rest(first)
    }

    #[verifier::rlimit(100)]
    fn parse_comparison_rest(&mut self, acc: Expr) -> (e: Expr)
        requires
            old(self).wf(),
        ensures
            final(self).wf(),
            final(self).tokens == old(self).tokens,
            final(self).current >= old(self).current,
            ({
                let r = parse_comparison_rest_spec(
                    old(self).toks(),
                    old(self).current as int,
                    acc@,
                );
                &&& e@ == r.e
                &&& final(self).current as int == r.pos
                &&& err_views(final(self).errors@) =~= err_views(old(self).errors@) + r.errs
            }),
        decreases rem(self.toks(), self.current as int), 7int,
    {
        if self.check(TokenType::Greater) || self.check(TokenType::GreaterEqual) || self.check(
            TokenType::Less,
        ) || self.check(TokenType::LessEqual) {
            let op = self.peek().get_type();
            let _ = self.advance();
            let right = self.parse_term();
            self.parse_comparison_rest(
                Expr::Binary { left: Box::new(acc), operator: op, right: Box::new(right) },
            )
        } else {
            acc
        }
    }

    /// term → factor (("+" | "-") factor)*
    #[verifier::rlimit(100)]
    pub fn parse_term(&mut self) -> (e: Expr)
        requires
            old(self).wf(),
        ensures
            final(self).wf(),
            final(self).tokens == old(self).tokens,
            final(self).current >= old(self).current,
            ({
                let r = parse_term_spec(old(self).toks(), old(self).current as int);
                &&& e@ == r.e
                &&& final(self).current as int == r.pos
                &&& err_views(final(self).errors@) =~= err_views(old(self).errors@) + r.errs
            }),
        decreases rem(self.toks(), self.current as int), 6int,
    {
        let first = self.parse_factor();
        self.parse_term_rest(first)
    }

    #[verifier::rlimit(100)]
    fn parse_term_rest(&mut self, acc: Expr) -> (e: Expr)
        requires
            old(self).wf(),
        ensures
            final(self).wf(),
            final(self).tokens == old(self).tokens,
            final(self).current >= old(self).current,
            ({
                let r = parse_term_rest_spec(old(self).toks(), old(self).current as int, acc@);
                &&& e@ == r.e
                &&& final(self).current as int == r.pos
                &&& err_views(final(self).errors@) =~= err_views(old(self).errors@) + r.errs
            }),
        decreases rem(self.toks(), self.current as int), 5int,
    {
        if self.check(TokenType::Plus) || self.check(TokenType::Minus) {
            let op = self.peek().get_type();
            let _ = self.advance();
            let right = self.parse_factor();
            self.parse_term_rest(
                Expr::Binary { left: Box::new(acc), operator: op, right: Box::new(right) },
            )
        } else {
            acc
        }
    }

    /// factor → unary (("*" | "/") unary)*
    #[verifier::rlimit(100)]
    pub fn parse_factor(&mut self) -> (e: Expr)
        requires
            old(self).wf(),
        ensures
            final(self).wf(),
            final(self).tokens == old(self).tokens,
            final(self).current >= old(self).current,
            ({
                let r = parse_factor_spec(old(self).toks(), old(self).current as int);
                &&& e@ == r.e
                &&& final(self).current as int == r.pos
                &&& err_views(final(self).errors@) =~= err_views(old(self).errors@) + r.errs
            }),
        decreases rem(self.toks(), self.current as int), 4int,
    {
        let first = self.parse_unary();
        self.parse_factor_rest(first)
    }

    #[verifier::rlimit(100)]
    fn parse_factor_rest(&mut self, acc: Expr) -> (e: Expr)
        requires
            old(self).wf(),
        ensures
            final(self).wf(),
            final(self).tokens == old(self).tokens,
            final(self).current >= old(self).current,
            ({
                let r = parse_factor_rest_spec(old(self).toks(), old(self).current as int, acc@);
                &&& e@ == r.e
                &&& final(self).current as int == r.pos
                &&& err_views(final(self).errors@) =~= err_views(old(self).errors@) + r.errs
            }),
        decreases rem(self.toks(), self.current as int), 3int,
    {
        if self.check(TokenType::Star) || self.check(TokenType::Slash) {
            let op = self.peek().get_type();
            let _ = self.advance();
            let right = self.parse_unary();
            self.parse_factor_rest(
                Expr::Binary { left: Box::new(acc), operator: op, right: Box::new(right) },
            )
        } else {
            acc
        }
    }

    /// unary → ("!" | "-") unary | primary
    #[verifier::rlimit(100)]
    pub fn parse_unary(&mut self) -> (e: Expr)
        requires
            old(self).wf(),
        ensures
            final(self).wf(),
            final(self).tokens == old(self).tokens,
            final(self).current >= old(self).current,
            ({
                let r = parse_unary_spec(old(self).toks(), old(self).current as int);
                &&& e@ == r.e
                &&& final(self).current as int == r.pos
                &&& err_views(final(self).errors@) =~= err_views(old(self).errors@) + r.errs
            }),
        decreases rem(self.toks(), self.current as int), 2int,
    {
        if self.check(TokenType::Bang) || self.check(TokenType::Minus) {
            let op = self.peek().get_type();
            let _ = self.advance();
            let right = self.parse_unary();
            Expr::Unary { operator: op, right: Box::new(right) }
        } else {
            self.parse_primary()
        }
    }

    /// primary → NUMBER | STRING | "true" | "false" | "nil" |
    /// "(" expression ")" | IDENTIFIER. On any other token a diagnostic is
    /// recorded, no token is consumed, and a nil literal stands in.
    #[verifier::rlimit(100)]
    pub fn parse_primary(&mut self) -> (e: Expr)
        requires
            old(self).wf(),
        ensures
            final(self).wf(),
            final(self).tokens == old(self).tokens,
            final(self).current >= old(self).current,
            ({
                let r = parse_primary_spec(old(self).toks(), old(self).current as int);
                &&& e@ == r.e
                &&& final(self).current as int == r.pos
                &&& err_views(final(self).errors@) =~= err_views(old(self).errors@) + r.errs
            }),
        decreases rem(self.toks(), self.current as int), 1int,
    {
        if self.check(TokenType::False) {
            let _ = self.advance();
            Expr::Literal(LiteralValue::Bool(false))
        } else if self.check(TokenType::True) {
            let _ = self.advance();
            Expr::Literal(LiteralValue::Bool(true))
        } else if self.check(TokenType::Nil) {
            let _ = self.advance();
            Expr::Literal(LiteralValue::Nil)
        } else if self.check(TokenType::Number) {
            let t = self.advance();
            let n = lex_to_number(t.get_lexeme());
            Expr::Literal(LiteralValue::Number(n))
        } else if self.check(TokenType::Str) {
            let t = self.advance();
            Expr::Literal(LiteralValue::Str(t.lexeme))
        } else if self.check(TokenType::LeftParen) {
            let _ = self.advance();
            let inner = self.parse_expression();
            let _close = self.consume(
                TokenType::RightParen,
                ParseErrorKind::ExpectRParenAfterExpr,
            );
            Expr::Grouping(Box::new(inner))
        } else if self.check(TokenType::Identifier) {
            let t = self.advance();
            Expr::Variable(t)
        } else {
            let t = self.peek().duplicate();
            self.error(&t, ParseErrorKind::ExpectedExpression);
            Expr::Literal(LiteralValue::Nil)
        }
    }
}

} // verus!
