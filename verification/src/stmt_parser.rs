//! The statement grammar: program, declaration, function and variable
//! declarations, and the statement forms. A program is a declaration list
//! up to end of input. When a declaration consumes no token (a cascade of
//! diagnostics), the parser skips one token before going on, so a parse
//! always terminates.
//!
//! As in the expression grammar, each production is specified by a spec
//! function over the token models and the executable parser is proved
//! against it.

use vstd::prelude::*;

use crate::ast::{stmts_view, tokens_view, Expr, ExprModel, Stmt, StmtModel};
use crate::expression_parser::{parse_expression_spec, rem};
use crate::parser::{
    adv, at_eof, bump, consume_spec, err_views, mx, tok_at, ParseErrorKind, ParseErrorModel,
    Parser,
};
use crate::token::{Token, TokenModel, TokenType};

verus! {

/// The outcome of parsing one statement production.
pub struct PStmt {
    pub s: StmtModel,
    pub pos: int,
    pub errs: Seq<ParseErrorModel>,
}

/// The outcome of parsing a statement list.
pub struct PStmts {
    pub ss: Seq<StmtModel>,
    pub pos: int,
    pub errs: Seq<ParseErrorModel>,
}

/// The outcome of parsing a parameter list.
pub struct PParams {
    pub ps: Seq<TokenModel>,
    pub pos: int,
    pub errs: Seq<ParseErrorModel>,
}

/// exprStmt → expression ";"
pub open spec fn expression_statement_spec(toks: Seq<TokenModel>, pos: int) -> PStmt {
    let e = parse_expression_spec(toks, pos);
    let sc = consume_spec(toks, mx(pos, e.pos), TokenType::Semicolon, ParseErrorKind::ExpectSemiAfterExpr);
    PStmt { s: StmtModel::Expression(e.e), pos: sc.pos, errs: e.errs + sc.errs }
}

/// printStmt → "print" expression ";" (entered past `print`)
pub open spec fn print_statement_spec(toks: Seq<TokenModel>, pos: int) -> PStmt {
    let e = parse_expression_spec(toks, pos);
    let sc = consume_spec(toks, mx(pos, e.pos), TokenType::Semicolon, ParseErrorKind::ExpectSemiAfterValue);
    PStmt { s: StmtModel::Print(e.e), pos: sc.pos, errs: e.errs + sc.errs }
}

/// varDecl → "var" IDENTIFIER ("=" expression)? ";" (entered past `var`)
pub open spec fn var_declaration_spec(toks: Seq<TokenModel>, pos: int) -> PStmt {
    let n = consume_spec(toks, pos, TokenType::Identifier, ParseErrorKind::ExpectVarName);
    if tok_at(toks, n.pos).ty == TokenType::Equal && n.pos < toks.len() {
        let e = parse_expression_spec(toks, n.pos + 1);
        let sc = consume_spec(
            toks,
            mx(n.pos + 1, e.pos),
            TokenType::Semicolon,
            ParseErrorKind::ExpectSemiAfterVarDecl,
        );
        PStmt {
            s: StmtModel::Var { name: n.tok, initializer: Some(e.e) },
            pos: sc.pos,
            errs: n.errs + e.errs + sc.errs,
        }
    } else {
        let sc = consume_spec(
            toks,
            n.pos,
            TokenType::Semicolon,
            ParseErrorKind::ExpectSemiAfterVarDecl,
        );
        PStmt {
            s: StmtModel::Var { name: n.tok, initializer: None },
            pos: sc.pos,
            errs: n.errs + sc.errs,
        }
    }
}

/// returnStmt → "return" expression? ";" (entered past `return`, whose token
/// is the keyword)
pub open spec fn return_statement_spec(toks: Seq<TokenModel>, pos: int, kw: TokenModel) -> PStmt {
    if tok_at(toks, pos).ty != TokenType::Semicolon {
        let e = parse_expression_spec(toks, pos);
        let sc = consume_spec(
            toks,
            mx(pos, e.pos),
            TokenType::Semicolon,
            ParseErrorKind::ExpectSemiAfterReturn,
        );
        PStmt {
            s: StmtModel::Return { keyword: kw, value: Some(e.e) },
            pos: sc.pos,
            errs: e.errs + sc.errs,
        }
    } else {
        let sc = consume_spec(toks, pos, TokenType::Semicolon, ParseErrorKind::ExpectSemiAfterReturn);
        PStmt { s: StmtModel::Return { keyword: kw, value: None }, pos: sc.pos, errs: sc.errs }
    }
}

/// breakStmt → "break" ";" (entered past `break`)
pub open spec fn break_statement_spec(toks: Seq<TokenModel>, pos: int, kw: TokenModel) -> PStmt {
    let sc = consume_spec(toks, pos, TokenType::Semicolon, ParseErrorKind::ExpectSemiAfterBreak);
    PStmt { s: StmtModel::Break { keyword: kw }, pos: sc.pos, errs: sc.errs }
}

/// continueStmt → "continue" ";" (entered past `continue`)
pub open spec fn continue_statement_spec(toks: Seq<TokenModel>, pos: int, kw: TokenModel) -> PStmt {
    let sc = consume_spec(toks, pos, TokenType::Semicolon, ParseErrorKind::ExpectSemiAfterContinue);
    PStmt { s: StmtModel::Continue { keyword: kw }, pos: sc.pos, errs: sc.errs }
}

/// parameters → IDENTIFIER ("," IDENTIFIER)*
pub open spec fn params_rest_spec(toks: Seq<TokenModel>, pos: int) -> PParams
    decreases rem(toks, pos),
{
    let c = consume_spec(toks, pos, TokenType::Identifier, ParseErrorKind::ExpectParamName);
    if tok_at(toks, c.pos).ty == TokenType::Comma && c.pos < toks.len() {
        let rest = params_rest_spec(toks, c.pos + 1);
        PParams { ps: seq![c.tok] + rest.ps, pos: rest.pos, errs: c.errs + rest.errs }
    } else {
        PParams { ps: seq![c.tok], pos: c.pos, errs: c.errs }
    }
}

/// block → "{" declaration* "}" — the declarations, up to the closing brace
/// or end of input.
pub open spec fn block_rest_spec(toks: Seq<TokenModel>, pos: int) -> PStmts
    decreases rem(toks, pos), 3int,
{
    if pos >= toks.len() || tok_at(toks, pos).ty == TokenType::RightBrace || at_eof(toks, pos) {
        PStmts { ss: seq![], pos, errs: seq![] }
    } else {
        let d = parse_declaration_spec(toks, pos);
        let rest = block_rest_spec(toks, bump(pos, d.pos));
        PStmts { ss: seq![d.s] + rest.ss, pos: rest.pos, errs: d.errs + rest.errs }
    }
}

/// block → "{" declaration* "}" (entered past `{`)
pub open spec fn parse_block_spec(toks: Seq<TokenModel>, pos: int) -> PStmt
    decreases rem(toks, pos), 4int,
{
    let r = block_rest_spec(toks, pos);
    let c = consume_spec(
        toks,
        mx(pos, r.pos),
        TokenType::RightBrace,
        ParseErrorKind::ExpectRBraceAfterBlock,
    );
    PStmt { s: StmtModel::Block { stmts: r.ss }, pos: c.pos, errs: r.errs + c.errs }
}

/// funDecl → "fun" IDENTIFIER "(" parameters? ")" block (entered past `fun`)
pub open spec fn fun_declaration_spec(toks: Seq<TokenModel>, pos: int) -> PStmt
    decreases rem(toks, pos), 5int,
{
    let n = consume_spec(toks, pos, TokenType::Identifier, ParseErrorKind::ExpectFunctionName);
    let lp = consume_spec(toks, n.pos, TokenType::LeftParen, ParseErrorKind::ExpectLParenAfterFunName);
    let ps = if tok_at(toks, lp.pos).ty != TokenType::RightParen {
        params_rest_spec(toks, lp.pos)
    } else {
        PParams { ps: seq![], pos: lp.pos, errs: seq![] }
    };
    let rp = consume_spec(
        toks,
        mx(lp.pos, ps.pos),
        TokenType::RightParen,
        ParseErrorKind::ExpectRParenAfterParams,
    );
    let lb = consume_spec(toks, rp.pos, TokenType::LeftBrace, ParseErrorKind::ExpectLBraceBeforeBody);
    let body = parse_block_spec(toks, mx(pos, lb.pos));
    PStmt {
        s: StmtModel::Function { name: n.tok, params: ps.ps, body: Box::new(body.s) },
        pos: body.pos,
        errs: n.errs + lp.errs + ps.errs + rp.errs + lb.errs + body.errs,
    }
}

/// ifStmt → "if" "(" expression ")" statement ("else" statement)? (entered
/// past `if`)
pub open spec fn if_statement_spec(toks: Seq<TokenModel>, pos: int) -> PStmt
    decreases rem(toks, pos), 5int,
{
    let lp = consume_spec(toks, pos, TokenType::LeftParen, ParseErrorKind::ExpectLParenAfterIf);
    let cond = parse_expression_spec(toks, lp.pos);
    let q = mx(pos, cond.pos);
    let rp = consume_spec(toks, q, TokenType::RightParen, ParseErrorKind::ExpectRParenAfterIfCond);
    let tb = parse_statement_spec(toks, rp.pos);
    let u = mx(pos, tb.pos);
    if tok_at(toks, u).ty == TokenType::Else && u < toks.len() {
        let eb = parse_statement_spec(toks, u + 1);
        PStmt {
            s: StmtModel::If {
                condition: cond.e,
                then_branch: Box::new(tb.s),
                else_branch: Some(Box::new(eb.s)),
            },
            pos: eb.pos,
            errs: lp.errs + cond.errs + rp.errs + tb.errs + eb.errs,
        }
    } else {
        PStmt {
            s: StmtModel::If {
                condition: cond.e,
                then_branch: Box::new(tb.s),
                else_branch: None,
            },
            pos: tb.pos,
            errs: lp.errs + cond.errs + rp.errs + tb.errs,
        }
    }
}

/// whileStmt → "while" "(" expression ")" statement (entered past `while`)
pub open spec fn while_statement_spec(toks: Seq<TokenModel>, pos: int) -> PStmt
    decreases rem(toks, pos), 5int,
{
    let lp = consume_spec(toks, pos, TokenType::LeftParen, ParseErrorKind::ExpectLParenAfterWhile);
    let cond = parse_expression_spec(toks, lp.pos);
    let q = mx(pos, cond.pos);
    let rp = consume_spec(toks, q, TokenType::RightParen, ParseErrorKind::ExpectRParenAfterWhileCond);
    let body = parse_statement_spec(toks, rp.pos);
    PStmt {
        s: StmtModel::While { condition: cond.e, body: Box::new(body.s) },
        pos: body.pos,
        errs: lp.errs + cond.errs + rp.errs + body.errs,
    }
}

/// An optional expression clause, present unless the stopping token is
/// already at the cursor.
pub struct POptExpr {
    pub e: Option<ExprModel>,
    pub pos: int,
    pub errs: Seq<ParseErrorModel>,
}

/// An optional loop clause: an expression unless `stop` is at the cursor.
pub open spec fn opt_expr_spec(toks: Seq<TokenModel>, pos: int, stop: TokenType) -> POptExpr {
    if tok_at(toks, pos).ty != stop {
        let r = parse_expression_spec(toks, pos);
        POptExpr { e: Some(r.e), pos: r.pos, errs: r.errs }
    } else {
        POptExpr { e: None, pos, errs: seq![] }
    }
}

/// An optional for-loop initializer.
pub struct POptStmt {
    pub s: Option<Box<StmtModel>>,
    pub pos: int,
    pub errs: Seq<ParseErrorModel>,
}


/// The for-loop initializer clause: empty, a declaration, or an expression
/// statement.
pub open spec fn for_statement_spec_init(toks: Seq<TokenModel>, pos: int) -> POptStmt {
    let t = tok_at(toks, pos);
    if t.ty == TokenType::Semicolon && pos < toks.len() {
        POptStmt { s: None, pos: pos + 1, errs: seq![] }
    } else if t.ty == TokenType::Var && pos < toks.len() {
        let vd = var_declaration_spec(toks, pos + 1);
        POptStmt { s: Some(Box::new(vd.s)), pos: vd.pos, errs: vd.errs }
    } else {
        let es = expression_statement_spec(toks, pos);
        POptStmt { s: Some(Box::new(es.s)), pos: es.pos, errs: es.errs }
    }
}

/// The rest of a for statement after its initializer: condition clause,
/// semicolon, increment clause, closing parenthesis, body.
pub struct PForTail {
    pub condition: Option<ExprModel>,
    pub increment: Option<ExprModel>,
    pub body: StmtModel,
    pub pos: int,
    pub errs: Seq<ParseErrorModel>,
}

pub open spec fn for_tail_spec(toks: Seq<TokenModel>, pos: int) -> PForTail
    decreases rem(toks, pos), 4int,
{
    let cond = opt_expr_spec(toks, pos, TokenType::Semicolon);
    let sc = consume_spec(
        toks,
        mx(pos, cond.pos),
        TokenType::Semicolon,
        ParseErrorKind::ExpectSemiAfterLoopCond,
    );
    let inc = opt_expr_spec(toks, sc.pos, TokenType::RightParen);
    let rp = consume_spec(
        toks,
        mx(sc.pos, inc.pos),
        TokenType::RightParen,
        ParseErrorKind::ExpectRParenAfterForClauses,
    );
    let body = parse_statement_spec(toks, mx(pos, rp.pos));
    PForTail {
        condition: cond.e,
        increment: inc.e,
        body: body.s,
        pos: body.pos,
        errs: cond.errs + sc.errs + inc.errs + rp.errs + body.errs,
    }
}

/// forStmt → "for" "(" (varDecl | exprStmt | ";") expression? ";"
/// expression? ")" statement (entered past `for`)
pub open spec fn for_statement_spec(toks: Seq<TokenModel>, pos: int) -> PStmt
    decreases rem(toks, pos), 5int,
{
    let lp = consume_spec(toks, pos, TokenType::LeftParen, ParseErrorKind::ExpectLParenAfterFor);
    let init = for_statement_spec_init(toks, lp.pos);
    let t = for_tail_spec(toks, mx(pos, init.pos));
    PStmt {
        s: StmtModel::For {
            initializer: init.s,
            condition: t.condition,
            increment: t.increment,
            body: Box::new(t.body),
        },
        pos: t.pos,
        errs: lp.errs + init.errs + t.errs,
    }
}

/// statement → exprStmt | printStmt | block | ifStmt | whileStmt | forStmt
/// | returnStmt | breakStmt | continueStmt
pub open spec fn parse_statement_spec(toks: Seq<TokenModel>, pos: int) -> PStmt
    decreases rem(toks, pos), 1int,
{
    let t = tok_at(toks, pos);
    if t.ty == TokenType::Print && pos < toks.len() {
        print_statement_spec(toks, pos + 1)
    } else if t.ty == TokenType::LeftBrace && pos < toks.len() {
        parse_block_spec(toks, pos + 1)
    } else if t.ty == TokenType::If && pos < toks.len() {
        if_statement_spec(toks, pos + 1)
    } else if t.ty == TokenType::While && pos < toks.len() {
        while_statement_spec(toks, pos + 1)
    } else if t.ty == TokenType::For && pos < toks.len() {
        for_statement_spec(toks, pos + 1)
    } else if t.ty == TokenType::Return && pos < toks.len() {
        return_statement_spec(toks, pos + 1, t)
    } else if t.ty == TokenType::Break && pos < toks.len() {
        break_statement_spec(toks, pos + 1, t)
    } else if t.ty == TokenType::Continue && pos < toks.len() {
        continue_statement_spec(toks, pos + 1, t)
    } else {
        expression_statement_spec(toks, pos)
    }
}

/// declaration → funDecl | varDecl | statement
pub open spec fn parse_declaration_spec(toks: Seq<TokenModel>, pos: int) -> PStmt
    decreases rem(toks, pos), 2int,
{
    let t = tok_at(toks, pos);
    if t.ty == TokenType::Fun && pos < toks.len() {
        fun_declaration_spec(toks, pos + 1)
    } else if t.ty == TokenType::Var && pos < toks.len() {
        var_declaration_spec(toks, pos + 1)
    } else {
        parse_statement_spec(toks, pos)
    }
}

/// program → declaration* end-of-input. A declaration that consumed no
/// token is followed by skipping one token, so the parse always reaches the
/// end of input.
pub open spec fn parse_program_spec(toks: Seq<TokenModel>, pos: int) -> PStmts
    decreases rem(toks, pos),
{
    if pos >= toks.len() || at_eof(toks, pos) {
        PStmts { ss: seq![], pos, errs: seq![] }
    } else {
        let d = parse_declaration_spec(toks, pos);
        let rest = parse_program_spec(toks, bump(pos, d.pos));
        PStmts { ss: seq![d.s] + rest.ss, pos: rest.pos, errs: d.errs + rest.errs }
    }
}

impl Parser {
    /// program → declaration* end-of-input
    #[verifier::rlimit(50)]
    pub fn parse_program(&mut self) -> (r: Vec<Stmt>)
        requires
            old(self).wf(),
        ensures
            final(self).wf(),
            final(self).tokens == old(self).tokens,
            final(self).current >= old(self).current,
            ({
                let p = parse_program_spec(old(self).toks(), old(self).current as int);
                &&& stmts_view(r@) =~= p.ss
                &&& final(self).current as int == p.pos
                &&& err_views(final(self).errors@) =~= err_views(old(self).errors@) + p.errs
            }),
        decreases rem(self.toks(), self.current as int),
    {
        if self.is_eof() {
            Vec::new()
        } else {
            let before = self.current;
            let d = self.declaration();
            if self.current <= before {
                let _ = self.advance();
            }
            let mut rest = self.parse_program();
            let ghost tail = rest@;
            let ghost dd = d@;
            rest.insert(0, d);
            proof {
                assert(rest@[0] == rest@.first());
                assert(rest@.drop_first() =~= tail);
                assert(stmts_view(rest@) =~= seq![dd] + stmts_view(tail));
            }
            rest
        }
    }

    /// declaration → funDecl | varDecl | statement
    #[verifier::rlimit(50)]
    fn declaration(&mut self) -> (s: Stmt)
        requires
            old(self).wf(),
        ensures
            final(self).wf(),
            final(self).tokens == old(self).tokens,
            final(self).current >= old(self).current,
            ({
                let r = parse_declaration_spec(old(self).toks(), old(self).current as int);
                &&& s@ == r.s
                &&& final(self).current as int == r.pos
                &&& err_views(final(self).errors@) =~= err_views(old(self).errors@) + r.errs
            }),
        decreases rem(self.toks(), self.current as int), 2int,
    {
        if self.check(TokenType::Fun) {
            let _ = self.advance();
            self.fun_declaration()
        } else if self.check(TokenType::Var) {
            let _ = self.advance();
            self.var_declaration()
        } else {
            self.statement()
        }
    }

    /// statement → exprStmt | printStmt | block | ifStmt | whileStmt |
    /// forStmt | returnStmt | breakStmt | continueStmt
    #[verifier::rlimit(50)]
    fn statement(&mut self) -> (s: Stmt)
        requires
            old(self).wf(),
        ensures
            final(self).wf(),
            final(self).tokens == old(self).tokens,
            final(self).current >= old(self).current,
            ({
                let r = parse_statement_spec(old(self).toks(), old(self).current as int);
                &&& s@ == r.s
                &&& final(self).current as int == r.pos
                &&& err_views(final(self).errors@) =~= err_views(old(self).errors@) + r.errs
            }),
        decreases rem(self.toks(), self.current as int), 1int,
    {
        if self.check(TokenType::Print) {
            let _ = self.advance();
            self.print_statement()
        } else if self.check(TokenType::LeftBrace) {
            let _ = self.advance();
            self.parse_block()
        } else if self.check(TokenType::If) {
            let _ = self.advance();
            self.parse_if_statement()
        } else if self.check(TokenType::While) {
            let _ = self.advance();
            self.parse_while_statement()
        } else if self.check(TokenType::For) {
            let _ = self.advance();
            self.parse_for_statement()
        } else if self.check(TokenType::Return) {
            let kw = self.advance();
            self.parse_return_statement(kw)
        } else if self.check(TokenType::Break) {
            let kw = self.advance();
            self.parse_break_statement(kw)
        } else if self.check(TokenType::Continue) {
            let kw = self.advance();
            self.parse_continue_statement(kw)
        } else {
            self.expression_statement()
        }
    }

    /// exprStmt → expression ";"
    #[verifier::rlimit(50)]
    fn expression_statement(&mut self) -> (s: Stmt)
        requires
            old(self).wf(),
        ensures
            final(self).wf(),
            final(self).tokens == old(self).tokens,
            final(self).current >= old(self).current,
            ({
                let r = expression_statement_spec(old(self).toks(), old(self).current as int);
                &&& s@ == r.s
                &&& final(self).current as int == r.pos
                &&& err_views(final(self).errors@) =~= err_views(old(self).errors@) + r.errs
            }),
    {
        let e = self.parse_expression();
        let _sc = self.consume(TokenType::Semicolon, ParseErrorKind::ExpectSemiAfterExpr);
        Stmt::Expression(e)
    }

    /// printStmt → "print" expression ";"
    #[verifier::rlimit(50)]
    fn print_statement(&mut self) -> (s: Stmt)
        requires
            old(self).wf(),
        ensures
            final(self).wf(),
            final(self).tokens == old(self).tokens,
            final(self).current >= old(self).current,
            ({
                let r = print_statement_spec(old(self).toks(), old(self).current as int);
                &&& s@ == r.s
                &&& final(self).current as int == r.pos
                &&& err_views(final(self).errors@) =~= err_views(old(self).errors@) + r.errs
            }),
    {
        let e = self.parse_expression();
        let _sc = self.consume(TokenType::Semicolon, ParseErrorKind::ExpectSemiAfterValue);
        Stmt::Print(e)
    }

    /// varDecl → "var" IDENTIFIER ("=" expression)? ";"
    #[verifier::rlimit(50)]
    fn var_declaration(&mut self) -> (s: Stmt)
        requires
            old(self).wf(),
        ensures
            final(self).wf(),
            final(self).tokens == old(self).tokens,
            final(self).current >= old(self).current,
            ({
                let r = var_declaration_spec(old(self).toks(), old(self).current as int);
                &&& s@ == r.s
                &&& final(self).current as int == r.pos
                &&& err_views(final(self).errors@) =~= err_views(old(self).errors@) + r.errs
            }),
    {
        let name = self.consume(TokenType::Identifier, ParseErrorKind::ExpectVarName);
        if self.check(TokenType::Equal) {
            let _ = self.advance();
            let e = self.parse_expression();
            let _sc = self.consume(TokenType::Semicolon, ParseErrorKind::ExpectSemiAfterVarDecl);
            Stmt::Var { name, initializer: Some(e) }
        } else {
            let _sc = self.consume(TokenType::Semicolon, ParseErrorKind::ExpectSemiAfterVarDecl);
            Stmt::Var { name, initializer: None }
        }
    }

    /// returnStmt → "return" expression? ";"
    #[verifier::rlimit(50)]
    fn parse_return_statement(&mut self, keyword: Token) -> (s: Stmt)
        requires
            old(self).wf(),
        ensures
            final(self).wf(),
            final(self).tokens == old(self).tokens,
            final(self).current >= old(self).current,
            ({
                let r = return_statement_spec(
                    old(self).toks(),
                    old(self).current as int,
                    keyword@,
                );
                &&& s@ == r.s
                &&& final(self).current as int == r.pos
                &&& err_views(final(self).errors@) =~= err_views(old(self).errors@) + r.errs
            }),
    {
        if !self.check(TokenType::Semicolon) {
            let e = self.parse_expression();
            let _sc = self.consume(TokenType::Semicolon, ParseErrorKind::ExpectSemiAfterReturn);
            Stmt::Return { keyword, value: Some(e) }
        } else {
            let _sc = self.consume(TokenType::Semicolon, ParseErrorKind::ExpectSemiAfterReturn);
            Stmt::Return { keyword, value: None }
        }
    }

    /// breakStmt → "break" ";"
    #[verifier::rlimit(50)]
    fn parse_break_statement(&mut self, keyword: Token) -> (s: Stmt)
        requires
            old(self).wf(),
        ensures
            final(self).wf(),
            final(self).tokens == old(self).tokens,
            final(self).current >= old(self).current,
            ({
                let r = break_statement_spec(old(self).toks(), old(self).current as int, keyword@);
                &&& s@ == r.s
                &&& final(self).current as int == r.pos
                &&& err_views(final(self).errors@) =~= err_views(old(self).errors@) + r.errs
            }),
    {
        let _sc = self.consume(TokenType::Semicolon, ParseErrorKind::ExpectSemiAfterBreak);
        Stmt::Break { keyword }
    }

    /// continueStmt → "continue" ";"
    #[verifier::rlimit(50)]
    fn parse_continue_statement(&mut self, keyword: Token) -> (s: Stmt)
        requires
            old(self).wf(),
        ensures
            final(self).wf(),
            final(self).tokens == old(self).tokens,
            final(self).current >= old(self).current,
            ({
                let r = continue_statement_spec(
                    old(self).toks(),
                    old(self).current as int,
                    keyword@,
                );
                &&& s@ == r.s
                &&& final(self).current as int == r.pos
                &&& err_views(final(self).errors@) =~= err_views(old(self).errors@) + r.errs
            }),
    {
        let _sc = self.consume(TokenType::Semicolon, ParseErrorKind::ExpectSemiAfterContinue);
        Stmt::Continue { keyword }
    }

    /// parameters → IDENTIFIER ("," IDENTIFIER)*
    #[verifier::rlimit(50)]
    fn parse_params_rest(&mut self) -> (r: Vec<Token>)
        requires
            old(self).wf(),
        ensures
            final(self).wf(),
            final(self).tokens == old(self).tokens,
            final(self).current >= old(self).current,
            ({
                let p = params_rest_spec(old(self).toks(), old(self).current as int);
                &&& tokens_view(r@) =~= p.ps
                &&& final(self).current as int == p.pos
                &&& err_views(final(self).errors@) =~= err_views(old(self).errors@) + p.errs
            }),
        decreases rem(self.toks(), self.current as int),
    {
        let t = self.consume(TokenType::Identifier, ParseErrorKind::ExpectParamName);
        if self.check(TokenType::Comma) {
            let _ = self.advance();
            let mut rest = self.parse_params_rest();
            rest.insert(0, t);
            rest
        } else {
            let mut v: Vec<Token> = Vec::new();
            let ghost tt = t@;
            v.push(t);
            proof {
                assert(tokens_view(v@) =~= seq![tt]);
            }
            v
        }
    }

    /// The declarations of a block, up to the closing brace or end of input.
    #[verifier::rlimit(50)]
    fn parse_block_rest(&mut self) -> (r: Vec<Stmt>)
        requires
            old(self).wf(),
        ensures
            final(self).wf(),
            final(self).tokens == old(self).tokens,
            final(self).current >= old(self).current,
            ({
                let p = block_rest_spec(old(self).toks(), old(self).current as int);
                &&& stmts_view(r@) =~= p.ss
                &&& final(self).current as int == p.pos
                &&& err_views(final(self).errors@) =~= err_views(old(self).errors@) + p.errs
            }),
        decreases rem(self.toks(), self.current as int), 3int,
    {
        if self.check(TokenType::RightBrace) || self.is_eof() {
            Vec::new()
        } else {
            let before = self.current;
            let d = self.declaration();
            if self.current <= before {
                let _ = self.advance();
            }
            let mut rest = self.parse_block_rest();
            let ghost tail = rest@;
            let ghost dd = d@;
            rest.insert(0, d);
            proof {
                assert(rest@[0] == rest@.first());
                assert(rest@.drop_first() =~= tail);
                assert(stmts_view(rest@) =~= seq![dd] + stmts_view(tail));
            }
            rest
        }
    }

    /// block → "{" declaration* "}"
    #[verifier::rlimit(50)]
    fn parse_block(&mut self) -> (s: Stmt)
        requires
            old(self).wf(),
        ensures
            final(self).wf(),
            final(self).tokens == old(self).tokens,
            final(self).current >= old(self).current,
            ({
                let r = parse_block_spec(old(self).toks(), old(self).current as int);
                &&& s@ == r.s
                &&& final(self).current as int == r.pos
                &&& err_views(final(self).errors@) =~= err_views(old(self).errors@) + r.errs
            }),
        decreases rem(self.toks(), self.current as int), 4int,
    {
        let stmts = self.parse_block_rest();
        let _c = self.consume(TokenType::RightBrace, ParseErrorKind::ExpectRBraceAfterBlock);
        Stmt::Block { stmts }
    }

    /// funDecl → "fun" IDENTIFIER "(" parameters? ")" block
    #[verifier::rlimit(100)]
    #[verifier::spinoff_prover]
    fn fun_declaration(&mut self) -> (s: Stmt)
        requires
            old(self).wf(),
        ensures
            final(self).wf(),
            final(self).tokens == old(self).tokens,
            final(self).current >= old(self).current,
            ({
                let r = fun_declaration_spec(old(self).toks(), old(self).current as int);
                &&& s@ == r.s
                &&& final(self).current as int == r.pos
                &&& err_views(final(self).errors@) =~= err_views(old(self).errors@) + r.errs
            }),
        decreases rem(self.toks(), self.current as int), 5int,
    {
        let name = self.consume(TokenType::Identifier, ParseErrorKind::ExpectFunctionName);
        let _lp = self.consume(TokenType::LeftParen, ParseErrorKind::ExpectLParenAfterFunName);
        let params: Vec<Token> = if !self.check(TokenType::RightParen) {
            self.parse_params_rest()
        } else {
            let v: Vec<Token> = Vec::new();
            proof {
                assert(tokens_view(v@) =~= Seq::<TokenModel>::empty());
            }
            v
        };
        let _rp = self.consume(TokenType::RightParen, ParseErrorKind::ExpectRParenAfterParams);
        let _lb = self.consume(TokenType::LeftBrace, ParseErrorKind::ExpectLBraceBeforeBody);
        let body = self.parse_block();
        Stmt::Function { name, params, body: Box::new(body) }
    }

    /// ifStmt → "if" "(" expression ")" statement ("else" statement)?
    #[verifier::rlimit(100)]
    #[verifier::spinoff_prover]
    fn parse_if_statement(&mut self) -> (s: Stmt)
        requires
            old(self).wf(),
        ensures
            final(self).wf(),
            final(self).tokens == old(self).tokens,
            final(self).current >= old(self).current,
            ({
                let r = if_statement_spec(old(self).toks(), old(self).current as int);
                &&& s@ == r.s
                &&& final(self).current as int == r.pos
                &&& err_views(final(self).errors@) =~= err_views(old(self).errors@) + r.errs
            }),
        decreases rem(self.toks(), self.current as int), 5int,
    {
        let ghost toks0 = self.toks();
        let ghost p0 = self.current as int;
        let _lp = self.consume(TokenType::LeftParen, ParseErrorKind::ExpectLParenAfterIf);
        let ghost lp = consume_spec(toks0, p0, TokenType::LeftParen, ParseErrorKind::ExpectLParenAfterIf);
        let condition = self.parse_expression();
        let ghost cond = parse_expression_spec(toks0, lp.pos);
        proof {
            assert(condition@ == cond.e && self.current as int == cond.pos);
            assert(mx(p0, cond.pos) == cond.pos);
        }
        let _rp = self.consume(TokenType::RightParen, ParseErrorKind::ExpectRParenAfterIfCond);
        let ghost rp = consume_spec(toks0, cond.pos, TokenType::RightParen, ParseErrorKind::ExpectRParenAfterIfCond);
        let then_branch = self.statement();
        let ghost tb = parse_statement_spec(toks0, rp.pos);
        proof {
            assert(then_branch@ == tb.s && self.current as int == tb.pos);
            assert(mx(p0, tb.pos) == tb.pos);
        }
        if self.check(TokenType::Else) {
            let _ = self.advance();
            let else_branch = self.statement();
            Stmt::If {
                condition,
                then_branch: Box::new(then_branch),
                else_branch: Some(Box::new(else_branch)),
            }
        } else {
            Stmt::If { condition, then_branch: Box::new(then_branch), else_branch: None }
        }
    }

    /// whileStmt → "while" "(" expression ")" statement
    #[verifier::rlimit(50)]
    fn parse_while_statement(&mut self) -> (s: Stmt)
        requires
            old(self).wf(),
        ensures
            final(self).wf(),
            final(self).tokens == old(self).tokens,
            final(self).current >= old(self).current,
            ({
                let r = while_statement_spec(old(self).toks(), old(self).current as int);
                &&& s@ == r.s
                &&& final(self).current as int == r.pos
                &&& err_views(final(self).errors@) =~= err_views(old(self).errors@) + r.errs
            }),
        decreases rem(self.toks(), self.current as int), 5int,
    {
        let _lp = self.consume(TokenType::LeftParen, ParseErrorKind::ExpectLParenAfterWhile);
        let condition = self.parse_expression();
        let _rp = self.consume(TokenType::RightParen, ParseErrorKind::ExpectRParenAfterWhileCond);
        let body = self.statement();
        Stmt::While { condition, body: Box::new(body) }
    }

    /// forStmt → "for" "(" (varDecl | exprStmt | ";") expression? ";"
    /// expression? ")" statement
    #[verifier::rlimit(100)]
    fn parse_for_statement(&mut self) -> (s: Stmt)
        requires
            old(self).wf(),
        ensures
            final(self).wf(),
            final(self).tokens == old(self).tokens,
            final(self).current >= old(self).current,
            ({
                let r = for_statement_spec(old(self).toks(), old(self).current as int);
                &&& s@ == r.s
                &&& final(self).current as int == r.pos
                &&& err_views(final(self).errors@) =~= err_views(old(self).errors@) + r.errs
            }),
        decreases rem(self.toks(), self.current as int), 5int,
    {
        let _lp = self.consume(TokenType::LeftParen, ParseErrorKind::ExpectLParenAfterFor);
        let initializer: Option<Box<Stmt>> = if self.check(TokenType::Semicolon) {
            let _ = self.advance();
            None
        } else if self.check(TokenType::Var) {
            let _ = self.advance();
            let vd = self.var_declaration();
            Some(Box::new(vd))
        } else {
            let es = self.expression_statement();
            Some(Box::new(es))
        };
        let (condition, increment, body) = self.parse_for_tail();
        Stmt::For { initializer, condition, increment, body: Box::new(body) }
    }

    /// The rest of a for statement after its initializer.
    #[verifier::rlimit(100)]
    fn parse_for_tail(&mut self) -> (r: (Option<Expr>, Option<Expr>, Stmt))
        requires
            old(self).wf(),
        ensures
            final(self).wf(),
            final(self).tokens == old(self).tokens,
            final(self).current >= old(self).current,
            ({
                let t = for_tail_spec(old(self).toks(), old(self).current as int);
                &&& crate::ast::opt_expr_view(r.0) == t.condition
                &&& crate::ast::opt_expr_view(r.1) == t.increment
                &&& r.2@ == t.body
                &&& final(self).current as int == t.pos
                &&& err_views(final(self).errors@) =~= err_views(old(self).errors@) + t.errs
            }),
        decreases rem(self.toks(), self.current as int), 4int,
    {
        let condition: Option<Expr> = if !self.check(TokenType::Semicolon) {
            Some(self.parse_expression())
        } else {
            None
        };
        let _sc = self.consume(TokenType::Semicolon, ParseErrorKind::ExpectSemiAfterLoopCond);
        let increment: Option<Expr> = if !self.check(TokenType::RightParen) {
            Some(self.parse_expression())
        } else {
            None
        };
        let _rp = self.consume(TokenType::RightParen, ParseErrorKind::ExpectRParenAfterForClauses);
        let body = self.statement();
        (condition, increment, body)
    }
}

} // verus!
