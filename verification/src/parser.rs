//! The recursive-descent parser's cursor and primitives: one-token
//! lookahead, committed consumption, and the expected-token diagnostic
//! policy. On a missing expected token the parser records a diagnostic and
//! carries on with the current token as if it had matched; diagnostics never
//! stop the parse.

use vstd::prelude::*;

use crate::token::{Token, TokenModel, TokenType};

verus! {

/// What the parser expected when it found a token it could not use.
#[derive(Clone, Copy, PartialEq, Eq, Structural, Debug)]
pub enum ParseErrorKind {
    ExpectedExpression,
    ExpectRParenAfterExpr,
    ExpectFunctionName,
    ExpectLParenAfterFunName,
    ExpectParamName,
    ExpectRParenAfterParams,
    ExpectLBraceBeforeBody,
    ExpectVarName,
    ExpectSemiAfterVarDecl,
    ExpectSemiAfterExpr,
    ExpectSemiAfterValue,
    ExpectRBraceAfterBlock,
    ExpectLParenAfterIf,
    ExpectRParenAfterIfCond,
    ExpectLParenAfterWhile,
    ExpectRParenAfterWhileCond,
    ExpectLParenAfterFor,
    ExpectSemiAfterLoopCond,
    ExpectRParenAfterForClauses,
    ExpectSemiAfterReturn,
    ExpectSemiAfterBreak,
    ExpectSemiAfterContinue,
}

/// A syntax diagnostic: the line, the offending lexeme, and what was
/// expected.
#[derive(Debug, PartialEq)]
pub struct ParseError {
    pub line: usize,
    pub lexeme: Vec<u8>,
    pub kind: ParseErrorKind,
}

/// Mathematical model of a syntax diagnostic.
pub struct ParseErrorModel {
    pub line: int,
    pub lexeme: Seq<u8>,
    pub kind: ParseErrorKind,
}

impl View for ParseError {
    type V = ParseErrorModel;

    open spec fn view(&self) -> ParseErrorModel {
        ParseErrorModel { line: self.line as int, lexeme: self.lexeme@, kind: self.kind }
    }
}

pub open spec fn err_views(es: Seq<ParseError>) -> Seq<ParseErrorModel> {
    es.map_values(|e: ParseError| e@)
}

/// The diagnostic raised at a token.
pub open spec fn perr(t: TokenModel, kind: ParseErrorKind) -> ParseErrorModel {
    ParseErrorModel { line: t.line, lexeme: t.lexeme, kind }
}

/// The token at a cursor position; past the end it is the final
/// end-of-input token.
pub open spec fn tok_at(toks: Seq<TokenModel>, pos: int) -> TokenModel {
    if 0 <= pos < toks.len() {
        toks[pos]
    } else if toks.len() > 0 {
        toks[toks.len() - 1]
    } else {
        TokenModel { ty: TokenType::Eof, lexeme: seq![], start: 0, end: 0, line: 0 }
    }
}

pub open spec fn at_eof(toks: Seq<TokenModel>, pos: int) -> bool {
    tok_at(toks, pos).ty == TokenType::Eof
}

/// Committed consumption: the cursor moves forward except at end of input.
pub open spec fn adv(toks: Seq<TokenModel>, pos: int) -> int {
    if at_eof(toks, pos) {
        pos
    } else {
        pos + 1
    }
}

/// Strict progress past `pos`: a sub-parse that moved is taken as it is,
/// one that did not is pushed one token forward.
pub open spec fn bump(pos: int, p2: int) -> int {
    if p2 <= pos {
        pos + 1
    } else {
        p2
    }
}

/// The later of two cursor positions.
pub open spec fn mx(a: int, b: int) -> int {
    if b < a {
        a
    } else {
        b
    }
}

/// The outcome of consuming an expected token: the token at the cursor, the
/// new cursor, and the diagnostic raised when the expectation failed.
pub struct PConsume {
    pub tok: TokenModel,
    pub pos: int,
    pub errs: Seq<ParseErrorModel>,
}

/// Consuming an expected token: on a match the cursor advances; on a
/// mismatch a diagnostic is recorded and the cursor stays, the current token
/// standing in as if it had matched.
pub open spec fn consume_spec(
    toks: Seq<TokenModel>,
    pos: int,
    expected: TokenType,
    kind: ParseErrorKind,
) -> PConsume {
    let t = tok_at(toks, pos);
    if t.ty == expected {
        PConsume { tok: t, pos: adv(toks, pos), errs: seq![] }
    } else {
        PConsume { tok: t, pos, errs: seq![perr(t, kind)] }
    }
}

/// The parser: the token sequence, the cursor, and the diagnostics recorded
/// so far.
pub struct Parser {
    pub tokens: Vec<Token>,
    pub current: usize,
    pub errors: Vec<ParseError>,
}

impl Parser {
    /// The model of the token sequence.
    pub open spec fn toks(self) -> Seq<TokenModel> {
        crate::ast::tokens_view(self.tokens@)
    }

    /// Well-formed: the token sequence is nonempty, ends with the
    /// end-of-input token, and the cursor is inside it.
    pub open spec fn wf(self) -> bool {
        &&& self.tokens@.len() >= 1
        &&& self.toks().last().ty == TokenType::Eof
        &&& self.current < self.tokens@.len()
    }

    /// Takes ownership of a scanner's token sequence, which must be
    /// terminated by the end-of-input token.
    pub fn new(tokens: Vec<Token>) -> (p: Parser)
        requires
            tokens@.len() >= 1,
            crate::ast::tokens_view(tokens@).last().ty == TokenType::Eof,
        ensures
            p.wf(),
            p.toks() == crate::ast::tokens_view(tokens@),
            p.current == 0,
            p.errors@.len() == 0,
    {
        Parser { tokens, current: 0, errors: Vec::new() }
    }

    /// The diagnostics recorded so far.
    pub fn get_errors(&self) -> (r: &Vec<ParseError>)
        ensures
            r@ == self.errors@,
    {
        &self.errors
    }

    pub fn is_eof(&self) -> (r: bool)
        requires
            self.wf(),
        ensures
            r == at_eof(self.toks(), self.current as int),
    {
        self.tokens[self.current].get_type() == TokenType::Eof
    }

    pub fn peek(&self) -> (t: &Token)
        requires
            self.wf(),
        ensures
            t@ == tok_at(self.toks(), self.current as int),
    {
        &self.tokens[self.current]
    }

    pub fn peek_next(&self) -> (t: &Token)
        requires
            self.wf(),
        ensures
            t@ == tok_at(self.toks(), self.current as int + 1),
    {
        let n = self.tokens.len();
        if self.current < n - 1 {
            &self.tokens[self.current + 1]
        } else {
            &self.tokens[self.current]
        }
    }

    /// The most recently consumed token.
    pub fn previous(&self) -> (t: &Token)
        requires
            self.wf(),
            self.current >= 1,
        ensures
            t@ == self.toks()[self.current as int - 1],
    {
        &self.tokens[self.current - 1]
    }

    /// Consumes the current token and returns it — except at end of input,
    /// where the cursor stays put and the previously consumed token is
    /// returned. At end of input at least one token must have been consumed.
    pub fn advance(&mut self) -> (t: Token)
        requires
            old(self).wf(),
            at_eof(old(self).toks(), old(self).current as int) ==> old(self).current >= 1,
        ensures
            final(self).wf(),
            final(self).tokens == old(self).tokens,
            final(self).errors == old(self).errors,
            final(self).current as int == adv(old(self).toks(), old(self).current as int),
            t@ == if at_eof(old(self).toks(), old(self).current as int) {
                old(self).toks()[old(self).current as int - 1]
            } else {
                tok_at(old(self).toks(), old(self).current as int)
            },
    {
        let n = self.tokens.len();
        if !self.is_eof() && self.current < n {
            self.current = self.current + 1;
        }
        self.tokens[self.current - 1].duplicate()
    }

    pub fn check(&self, expected: TokenType) -> (r: bool)
        requires
            self.wf(),
        ensures
            r == (tok_at(self.toks(), self.current as int).ty == expected),
    {
        self.tokens[self.current].get_type() == expected
    }

    /// Committed consumption over a set of alternatives: consumes the
    /// current token and reports true exactly when its kind is one of those
    /// given. Matching the end-of-input token requires at least one token to
    /// have been consumed before it.
    pub fn match_token(&mut self, types: &[TokenType]) -> (r: bool)
        requires
            old(self).wf(),
            at_eof(old(self).toks(), old(self).current as int) && types@.contains(TokenType::Eof)
                ==> old(self).current >= 1,
        ensures
            final(self).wf(),
            final(self).tokens == old(self).tokens,
            final(self).errors == old(self).errors,
            r == types@.contains(tok_at(old(self).toks(), old(self).current as int).ty),
            final(self).current as int == if r {
                adv(old(self).toks(), old(self).current as int)
            } else {
                old(self).current as int
            },
    {
        let mut i: usize = 0;
        while i < types.len()
            invariant
                old(self) == self,
                self.wf(),
                at_eof(self.toks(), self.current as int) && types@.contains(TokenType::Eof)
                    ==> self.current >= 1,
                i <= types@.len(),
                forall|k: int|
                    0 <= k < i ==> #[trigger] types@[k] != tok_at(
                        self.toks(),
                        self.current as int,
                    ).ty,
            decreases types@.len() - i,
        {
            if self.check(types[i]) {
                proof {
                    assert(at_eof(self.toks(), self.current as int) ==> self.current >= 1) by {
                        if at_eof(self.toks(), self.current as int) {
                            assert(types@[i as int] == TokenType::Eof);
                            assert(types@.contains(TokenType::Eof));
                        }
                    }
                }
                let _ = self.advance();
                return true;
            }
            i = i + 1;
        }
        false
    }

    /// Records a diagnostic at a token.
    pub fn error(&mut self, token: &Token, kind: ParseErrorKind)
        ensures
            final(self).tokens == old(self).tokens,
            final(self).current == old(self).current,
            err_views(final(self).errors@) == err_views(old(self).errors@) + seq![
                perr(token@, kind),
            ],
    {
        let e = ParseError {
            line: token.get_line(),
            lexeme: crate::token::clone_bytes(token.get_lexeme()),
            kind,
        };
        self.errors.push(e);
        proof {
            assert(err_views(self.errors@) =~= err_views(old(self).errors@) + seq![
                perr(token@, kind),
            ]);
        }
    }

    /// Consumes the expected token, or records a diagnostic and carries on
    /// with the current token as if it had matched. Expecting the
    /// end-of-input token while the cursor sits on it hands back the
    /// previously consumed token, as `advance` does.
    pub fn consume(&mut self, expected: TokenType, kind: ParseErrorKind) -> (t: Token)
        requires
            old(self).wf(),
            expected == TokenType::Eof && at_eof(old(self).toks(), old(self).current as int)
                ==> old(self).current >= 1,
        ensures
            final(self).wf(),
            final(self).tokens == old(self).tokens,
            ({
                let c = consume_spec(old(self).toks(), old(self).current as int, expected, kind);
                &&& t@ == if expected == TokenType::Eof && at_eof(
                    old(self).toks(),
                    old(self).current as int,
                ) {
                    old(self).toks()[old(self).current as int - 1]
                } else {
                    c.tok
                }
                &&& final(self).current as int == c.pos
                &&& err_views(final(self).errors@) == err_views(old(self).errors@) + c.errs
            }),
            final(self).current >= old(self).current,
    {
        if self.check(expected) {
            let t = self.advance();
            proof {
                assert(err_views(self.errors@) =~= err_views(old(self).errors@) + Seq::<
                    ParseErrorModel,
                >::empty());
            }
            t
        } else {
            let t = self.peek().duplicate();
            self.error(&t, kind);
            t
        }
    }
}

} // verus!
