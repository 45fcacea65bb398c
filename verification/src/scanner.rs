//! The lexical scanner: consumes raw source bytes and produces the ordered
//! token sequence, terminated by an end-of-input token.
//!
//! The whole scan is specified by `scan_go`, which repeatedly applies the
//! one-lexeme step function `scan_step`; `Scanner::scan_tokens` is proved to
//! produce exactly the tokens and diagnostics of that specification.

use vstd::prelude::*;

use crate::token::{Token, TokenModel, TokenType};

verus! {

// Byte values the scanner dispatches on.
pub const B_LPAREN: u8 = 40;

pub const B_RPAREN: u8 = 41;

pub const B_LBRACE: u8 = 123;

pub const B_RBRACE: u8 = 125;

pub const B_COMMA: u8 = 44;

pub const B_DOT: u8 = 46;

pub const B_MINUS: u8 = 45;

pub const B_PLUS: u8 = 43;

pub const B_SEMI: u8 = 59;

pub const B_STAR: u8 = 42;

pub const B_SLASH: u8 = 47;

pub const B_BANG: u8 = 33;

pub const B_EQ: u8 = 61;

pub const B_LT: u8 = 60;

pub const B_GT: u8 = 62;

pub const B_SPACE: u8 = 32;

pub const B_CR: u8 = 13;

pub const B_TAB: u8 = 9;

pub const B_NL: u8 = 10;

pub const B_QUOTE: u8 = 34;

pub const B_UNDERSCORE: u8 = 95;

/// A scanner diagnostic. Diagnostics are collected on the side; they never
/// stop the scan.
#[derive(Clone, Copy, PartialEq, Eq, Structural, Debug)]
pub enum ScanErrorKind {
    /// A byte that starts no lexeme; the byte is recorded.
    UnexpectedCharacter(u8),
    /// A string literal with no closing quote before end of input.
    UnterminatedString,
    /// A decimal point with no digit after it.
    MalformedNumber,
}

/// A diagnostic with the line and byte position where it was raised.
#[derive(Clone, Copy, PartialEq, Eq, Structural, Debug)]
pub struct ScanError {
    pub kind: ScanErrorKind,
    pub line: usize,
    pub pos: usize,
}

/// Mathematical model of a diagnostic.
pub struct ScanErrorModel {
    pub kind: ScanErrorKind,
    pub line: int,
    pub pos: int,
}

impl View for ScanError {
    type V = ScanErrorModel;

    open spec fn view(&self) -> ScanErrorModel {
        ScanErrorModel { kind: self.kind, line: self.line as int, pos: self.pos as int }
    }
}

pub open spec fn is_digit(c: u8) -> bool {
    48 <= c <= 57
}

pub open spec fn is_alpha(c: u8) -> bool {
    (65 <= c <= 90) || (97 <= c <= 122)
}

pub open spec fn is_ident_start(c: u8) -> bool {
    is_alpha(c) || c == B_UNDERSCORE
}

pub open spec fn is_ident_char(c: u8) -> bool {
    is_alpha(c) || is_digit(c) || c == B_UNDERSCORE
}

/// First position at or after `pos` whose byte satisfies `stop`, or the end
/// of the source if there is none.
pub open spec fn scan_until(src: Seq<u8>, pos: int, stop: spec_fn(u8) -> bool) -> int
    decreases src.len() - pos,
{
    if 0 <= pos < src.len() && !stop(src[pos]) {
        scan_until(src, pos + 1, stop)
    } else {
        pos
    }
}

pub proof fn lemma_scan_until(src: Seq<u8>, pos: int, stop: spec_fn(u8) -> bool)
    requires
        0 <= pos <= src.len(),
    ensures
        pos <= scan_until(src, pos, stop) <= src.len(),
        forall|k: int| pos <= k < scan_until(src, pos, stop) ==> !stop(src[k]),
        scan_until(src, pos, stop) < src.len() ==> stop(src[scan_until(src, pos, stop)]),
    decreases src.len() - pos,
{
    if 0 <= pos < src.len() && !stop(src[pos]) {
        lemma_scan_until(src, pos + 1, stop);
    }
}

/// The number of newline bytes in `src[i..j]`.
pub open spec fn count_nl(src: Seq<u8>, i: int, j: int) -> int
    decreases j - i,
{
    if i >= j {
        0
    } else {
        count_nl(src, i, j - 1) + if 0 <= j - 1 < src.len() && src[j - 1] == B_NL {
            1int
        } else {
            0int
        }
    }
}

pub proof fn lemma_count_nl_bounds(src: Seq<u8>, i: int, j: int)
    ensures
        0 <= count_nl(src, i, j) <= if j > i {
            j - i
        } else {
            0
        },
    decreases j - i,
{
    if i < j {
        lemma_count_nl_bounds(src, i, j - 1);
    }
}

pub open spec fn skip_digits(src: Seq<u8>, pos: int) -> int {
    scan_until(src, pos, |c: u8| !is_digit(c))
}

pub open spec fn skip_ident(src: Seq<u8>, pos: int) -> int {
    scan_until(src, pos, |c: u8| !is_ident_char(c))
}

pub open spec fn skip_string(src: Seq<u8>, pos: int) -> int {
    scan_until(src, pos, |c: u8| c == B_QUOTE)
}

pub open spec fn skip_line(src: Seq<u8>, pos: int) -> int {
    scan_until(src, pos, |c: u8| c == B_NL)
}

/// The classification of an identifier lexeme: one of the fixed keywords,
/// by exact match, else a generic identifier.
pub open spec fn ident_token_type(lex: Seq<u8>) -> TokenType {
    if lex == seq![97u8, 110u8, 100u8] {  // and
        TokenType::And
    } else if lex == seq![98u8, 114u8, 101u8, 97u8, 107u8] {  // break
        TokenType::Break
    } else if lex == seq![99u8, 111u8, 110u8, 116u8, 105u8, 110u8, 117u8, 101u8] {  // continue
        TokenType::Continue
    } else if lex == seq![99u8, 108u8, 97u8, 115u8, 115u8] {  // class
        TokenType::Class
    } else if lex == seq![101u8, 108u8, 115u8, 101u8] {  // else
        TokenType::Else
    } else if lex == seq![102u8, 97u8, 108u8, 115u8, 101u8] {  // false
        TokenType::False
    } else if lex == seq![102u8, 111u8, 114u8] {  // for
        TokenType::For
    } else if lex == seq![102u8, 117u8, 110u8] {  // fun
        TokenType::Fun
    } else if lex == seq![105u8, 102u8] {  // if
        TokenType::If
    } else if lex == seq![110u8, 105u8, 108u8] {  // nil
        TokenType::Nil
    } else if lex == seq![111u8, 114u8] {  // or
        TokenType::Or
    } else if lex == seq![112u8, 114u8, 105u8, 110u8, 116u8] {  // print
        TokenType::Print
    } else if lex == seq![114u8, 101u8, 116u8, 117u8, 114u8, 110u8] {  // return
        TokenType::Return
    } else if lex == seq![115u8, 117u8, 112u8, 101u8, 114u8] {  // super
        TokenType::Super
    } else if lex == seq![116u8, 104u8, 105u8, 115u8] {  // this
        TokenType::This
    } else if lex == seq![116u8, 114u8, 117u8, 101u8] {  // true
        TokenType::True
    } else if lex == seq![118u8, 97u8, 114u8] {  // var
        TokenType::Var
    } else if lex == seq![119u8, 104u8, 105u8, 108u8, 101u8] {  // while
        TokenType::While
    } else {
        TokenType::Identifier
    }
}

/// The outcome of scanning one lexeme: the new cursor and line, and the
/// token and diagnostic it produced, if any.
pub struct ScanStep {
    pub next_pos: int,
    pub next_line: int,
    pub token: Option<TokenModel>,
    pub diag: Option<ScanErrorModel>,
}

/// A step that emits an `n`-byte punctuation or operator token.
pub open spec fn punct_step(src: Seq<u8>, pos: int, line: int, ty: TokenType, n: int) -> ScanStep {
    ScanStep {
        next_pos: pos + n,
        next_line: line,
        token: Some(
            TokenModel {
                ty,
                lexeme: src.subrange(pos, pos + n),
                start: pos,
                end: pos + n,
                line,
            },
        ),
        diag: None,
    }
}

/// A step that consumes bytes but emits nothing.
pub open spec fn silent_step(next_pos: int, next_line: int) -> ScanStep {
    ScanStep { next_pos, next_line, token: None, diag: None }
}

/// A one- or two-byte operator: two bytes when the next byte is `=`.
pub open spec fn two_char_step(
    src: Seq<u8>,
    pos: int,
    line: int,
    single: TokenType,
    double: TokenType,
) -> ScanStep {
    if pos + 1 < src.len() && src[pos + 1] == B_EQ {
        punct_step(src, pos, line, double, 2)
    } else {
        punct_step(src, pos, line, single, 1)
    }
}

/// Scanning a string literal: the content is the interior excluding the
/// delimiters; newlines inside it advance the line counter. An unterminated
/// string is reported as a diagnostic and the captured text is still
/// tokenized.
pub open spec fn string_step(src: Seq<u8>, pos: int, line: int) -> ScanStep {
    let cend = skip_string(src, pos + 1);
    let line2 = line + count_nl(src, pos + 1, cend);
    if cend >= src.len() {
        ScanStep {
            next_pos: cend,
            next_line: line2,
            token: Some(
                TokenModel {
                    ty: TokenType::Str,
                    lexeme: src.subrange(pos + 1, cend),
                    start: pos,
                    end: cend,
                    line: line2,
                },
            ),
            diag: Some(ScanErrorModel { kind: ScanErrorKind::UnterminatedString, line: line2, pos: cend }),
        }
    } else {
        ScanStep {
            next_pos: cend + 1,
            next_line: line2,
            token: Some(
                TokenModel {
                    ty: TokenType::Str,
                    lexeme: src.subrange(pos + 1, cend),
                    start: pos,
                    end: cend + 1,
                    line: line2,
                },
            ),
            diag: None,
        }
    }
}

/// Scanning a numeric literal: a digit run, optionally followed by a
/// decimal point and a further digit run. A decimal point with no digit
/// after it is reported as a diagnostic; the token is still emitted as the
/// whole-number match up to that point.
pub open spec fn number_step(src: Seq<u8>, pos: int, line: int) -> ScanStep {
    let int_end = skip_digits(src, pos);
    if int_end < src.len() && src[int_end] == B_DOT && int_end + 1 < src.len() && is_digit(
        src[int_end + 1],
    ) {
        let frac_end = skip_digits(src, int_end + 1);
        punct_step(src, pos, line, TokenType::Number, frac_end - pos)
    } else if int_end < src.len() && src[int_end] == B_DOT {
        ScanStep {
            next_pos: int_end,
            next_line: line,
            token: Some(
                TokenModel {
                    ty: TokenType::Number,
                    lexeme: src.subrange(pos, int_end),
                    start: pos,
                    end: int_end,
                    line,
                },
            ),
            diag: Some(
                ScanErrorModel { kind: ScanErrorKind::MalformedNumber, line, pos: int_end },
            ),
        }
    } else {
        punct_step(src, pos, line, TokenType::Number, int_end - pos)
    }
}

/// Scanning an identifier or keyword lexeme.
pub open spec fn ident_step(src: Seq<u8>, pos: int, line: int) -> ScanStep {
    let end = skip_ident(src, pos);
    punct_step(src, pos, line, ident_token_type(src.subrange(pos, end)), end - pos)
}

/// One scanner step at cursor `pos` on line `line`.
pub open spec fn scan_step(src: Seq<u8>, pos: int, line: int) -> ScanStep
    recommends
        0 <= pos < src.len(),
{
    let c = src[pos];
    if c == B_LPAREN {
        punct_step(src, pos, line, TokenType::LeftParen, 1)
    } else if c == B_RPAREN {
        punct_step(src, pos, line, TokenType::RightParen, 1)
    } else if c == B_LBRACE {
        punct_step(src, pos, line, TokenType::LeftBrace, 1)
    } else if c == B_RBRACE {
        punct_step(src, pos, line, TokenType::RightBrace, 1)
    } else if c == B_COMMA {
        punct_step(src, pos, line, TokenType::Comma, 1)
    } else if c == B_DOT {
        punct_step(src, pos, line, TokenType::Dot, 1)
    } else if c == B_MINUS {
        punct_step(src, pos, line, TokenType::Minus, 1)
    } else if c == B_PLUS {
        punct_step(src, pos, line, TokenType::Plus, 1)
    } else if c == B_SEMI {
        punct_step(src, pos, line, TokenType::Semicolon, 1)
    } else if c == B_STAR {
        punct_step(src, pos, line, TokenType::Star, 1)
    } else if c == B_SLASH {
        if pos + 1 < src.len() && src[pos + 1] == B_SLASH {
            // A single-line comment: discarded, no token emitted.
            silent_step(skip_line(src, pos + 1), line)
        } else {
            punct_step(src, pos, line, TokenType::Slash, 1)
        }
    } else if c == B_BANG {
        two_char_step(src, pos, line, TokenType::Bang, TokenType::BangEqual)
    } else if c == B_EQ {
        two_char_step(src, pos, line, TokenType::Equal, TokenType::EqualEqual)
    } else if c == B_LT {
        two_char_step(src, pos, line, TokenType::Less, TokenType::LessEqual)
    } else if c == B_GT {
        two_char_step(src, pos, line, TokenType::Greater, TokenType::GreaterEqual)
    } else if c == B_SPACE || c == B_CR || c == B_TAB {
        silent_step(pos + 1, line)
    } else if c == B_NL {
        silent_step(pos + 1, line + 1)
    } else if c == B_QUOTE {
        string_step(src, pos, line)
    } else if is_digit(c) {
        number_step(src, pos, line)
    } else if is_ident_start(c) {
        ident_step(src, pos, line)
    } else {
        ScanStep {
            next_pos: pos + 1,
            next_line: line,
            token: None,
            diag: Some(
                ScanErrorModel {
                    kind: ScanErrorKind::UnexpectedCharacter(c),
                    line,
                    pos: pos + 1,
                },
            ),
        }
    }
}

/// Every step consumes at least one byte and stays inside the source.
pub proof fn lemma_scan_step_advances(src: Seq<u8>, pos: int, line: int)
    requires
        0 <= pos < src.len(),
    ensures
        pos < scan_step(src, pos, line).next_pos <= src.len(),
{
    let c = src[pos];
    if c == B_SLASH && pos + 1 < src.len() && src[pos + 1] == B_SLASH {
        lemma_scan_until(src, pos + 1, |b: u8| b == B_NL);
    } else if c == B_QUOTE {
        lemma_scan_until(src, pos + 1, |b: u8| b == B_QUOTE);
    } else if is_digit(c) {
        lemma_scan_until(src, pos, |b: u8| !is_digit(b));
        let int_end = skip_digits(src, pos);
        assert(!!is_digit(src[pos]));
        assert(int_end != pos);
        if int_end < src.len() && src[int_end] == B_DOT && int_end + 1 < src.len() && is_digit(
            src[int_end + 1],
        ) {
            lemma_scan_until(src, int_end + 1, |b: u8| !is_digit(b));
        }
    } else if !(c == B_LPAREN || c == B_RPAREN || c == B_LBRACE || c == B_RBRACE || c == B_COMMA
        || c == B_DOT || c == B_MINUS || c == B_PLUS || c == B_SEMI || c == B_STAR || c == B_SLASH
        || c == B_BANG || c == B_EQ || c == B_LT || c == B_GT || c == B_SPACE || c == B_CR || c
        == B_TAB || c == B_NL) && is_ident_start(c) {
        lemma_scan_until(src, pos, |b: u8| !is_ident_char(b));
        assert(is_ident_char(src[pos]));
    }
}

pub open spec fn opt_seq<A>(o: Option<A>) -> Seq<A> {
    match o {
        Some(a) => seq![a],
        None => seq![],
    }
}

/// The result of scanning the whole remainder of the source: the tokens and
/// diagnostics produced, and the line number at end of input.
pub struct ScanOut {
    pub tokens: Seq<TokenModel>,
    pub errors: Seq<ScanErrorModel>,
    pub end_line: int,
}

/// Scanning from cursor `pos` on line `line` to the end of the source.
pub open spec fn scan_go(src: Seq<u8>, pos: int, line: int) -> ScanOut
    decreases src.len() - pos,
    via scan_go_decreases
{
    if pos < 0 || pos >= src.len() {
        ScanOut { tokens: seq![], errors: seq![], end_line: line }
    } else {
        let st = scan_step(src, pos, line);
        let rest = scan_go(src, st.next_pos, st.next_line);
        ScanOut {
            tokens: opt_seq(st.token) + rest.tokens,
            errors: opt_seq(st.diag) + rest.errors,
            end_line: rest.end_line,
        }
    }
}

#[via_fn]
proof fn scan_go_decreases(src: Seq<u8>, pos: int, line: int) {
    if 0 <= pos < src.len() {
        lemma_scan_step_advances(src, pos, line);
    }
}

/// The end-of-input token appended once the cursor reaches the end.
pub open spec fn eof_token(src: Seq<u8>, line: int) -> TokenModel {
    TokenModel {
        ty: TokenType::Eof,
        lexeme: seq![],
        start: src.len() as int,
        end: src.len() as int,
        line,
    }
}

/// The full scan of a source: all its tokens, terminated by the
/// end-of-input token, and all its diagnostics.
pub open spec fn scan_spec(src: Seq<u8>) -> ScanOut {
    let out = scan_go(src, 0, 1);
    ScanOut {
        tokens: out.tokens + seq![eof_token(src, out.end_line)],
        errors: out.errors,
        end_line: out.end_line,
    }
}

pub open spec fn token_views(ts: Seq<Token>) -> Seq<TokenModel> {
    ts.map_values(|t: Token| t@)
}

pub open spec fn error_views(es: Seq<ScanError>) -> Seq<ScanErrorModel> {
    es.map_values(|e: ScanError| e@)
}

/// The byte at position `i`, or 0 past the end of the source.
pub open spec fn byte_at(src: Seq<u8>, i: int) -> u8 {
    if 0 <= i < src.len() {
        src[i]
    } else {
        0
    }
}

/// Copies the byte range `v[i..j]`.
pub fn copy_range(v: &Vec<u8>, i: usize, j: usize) -> (r: Vec<u8>)
    requires
        i <= j <= v.len(),
    ensures
        r@ == v@.subrange(i as int, j as int),
{
    let mut r: Vec<u8> = Vec::new();
    let mut k: usize = i;
    while k < j
        invariant
            i <= k <= j <= v.len(),
            r@ == v@.subrange(i as int, k as int),
        decreases j - k,
    {
        r.push(v[k]);
        proof {
            assert(r@ =~= v@.subrange(i as int, k + 1 as int));
        }
        k = k + 1;
    }
    r
}

fn eq2(l: &Vec<u8>, a: u8, b: u8) -> (r: bool)
    ensures
        r == (l@ == seq![a, b]),
{
    let r = l.len() == 2 && l[0] == a && l[1] == b;
    proof {
        if r {
            assert(l@ =~= seq![a, b]);
        }
    }
    r
}

fn eq3(l: &Vec<u8>, a: u8, b: u8, c: u8) -> (r: bool)
    ensures
        r == (l@ == seq![a, b, c]),
{
    let r = l.len() == 3 && l[0] == a && l[1] == b && l[2] == c;
    proof {
        if r {
            assert(l@ =~= seq![a, b, c]);
        }
    }
    r
}

fn eq4(l: &Vec<u8>, a: u8, b: u8, c: u8, d: u8) -> (r: bool)
    ensures
        r == (l@ == seq![a, b, c, d]),
{
    let r = l.len() == 4 && l[0] == a && l[1] == b && l[2] == c && l[3] == d;
    proof {
        if r {
            assert(l@ =~= seq![a, b, c, d]);
        }
    }
    r
}

fn eq5(l: &Vec<u8>, a: u8, b: u8, c: u8, d: u8, e: u8) -> (r: bool)
    ensures
        r == (l@ == seq![a, b, c, d, e]),
{
    let r = l.len() == 5 && l[0] == a && l[1] == b && l[2] == c && l[3] == d && l[4] == e;
    proof {
        if r {
            assert(l@ =~= seq![a, b, c, d, e]);
        }
    }
    r
}

fn eq6(l: &Vec<u8>, a: u8, b: u8, c: u8, d: u8, e: u8, f: u8) -> (r: bool)
    ensures
        r == (l@ == seq![a, b, c, d, e, f]),
{
    let r = l.len() == 6 && l[0] == a && l[1] == b && l[2] == c && l[3] == d && l[4] == e && l[5]
        == f;
    proof {
        if r {
            assert(l@ =~= seq![a, b, c, d, e, f]);
        }
    }
    r
}

fn eq8(l: &Vec<u8>, a: u8, b: u8, c: u8, d: u8, e: u8, f: u8, g: u8, h: u8) -> (r: bool)
    ensures
        r == (l@ == seq![a, b, c, d, e, f, g, h]),
{
    let r = l.len() == 8 && l[0] == a && l[1] == b && l[2] == c && l[3] == d && l[4] == e && l[5]
        == f && l[6] == g && l[7] == h;
    proof {
        if r {
            assert(l@ =~= seq![a, b, c, d, e, f, g, h]);
        }
    }
    r
}

/// Classifies an identifier lexeme against the fixed keyword table.
pub fn classify_ident(lex: &Vec<u8>) -> (t: TokenType)
    ensures
        t == ident_token_type(lex@),
{
    if eq3(lex, 97, 110, 100) {
        TokenType::And
    } else if eq5(lex, 98, 114, 101, 97, 107) {
        TokenType::Break
    } else if eq8(lex, 99, 111, 110, 116, 105, 110, 117, 101) {
        TokenType::Continue
    } else if eq5(lex, 99, 108, 97, 115, 115) {
        TokenType::Class
    } else if eq4(lex, 101, 108, 115, 101) {
        TokenType::Else
    } else if eq5(lex, 102, 97, 108, 115, 101) {
        TokenType::False
    } else if eq3(lex, 102, 111, 114) {
        TokenType::For
    } else if eq3(lex, 102, 117, 110) {
        TokenType::Fun
    } else if eq2(lex, 105, 102) {
        TokenType::If
    } else if eq3(lex, 110, 105, 108) {
        TokenType::Nil
    } else if eq2(lex, 111, 114) {
        TokenType::Or
    } else if eq5(lex, 112, 114, 105, 110, 116) {
        TokenType::Print
    } else if eq6(lex, 114, 101, 116, 117, 114, 110) {
        TokenType::Return
    } else if eq5(lex, 115, 117, 112, 101, 114) {
        TokenType::Super
    } else if eq4(lex, 116, 104, 105, 115) {
        TokenType::This
    } else if eq4(lex, 116, 114, 117, 101) {
        TokenType::True
    } else if eq3(lex, 118, 97, 114) {
        TokenType::Var
    } else if eq5(lex, 119, 104, 105, 108, 101) {
        TokenType::While
    } else {
        TokenType::Identifier
    }
}

/// The scanner: a cursor over the source bytes, the tokens and diagnostics
/// produced so far, the start offset of the lexeme being scanned, and the
/// current line.
pub struct Scanner {
    pub source: Vec<u8>,
    pub tokens: Vec<Token>,
    pub errors: Vec<ScanError>,
    pub start: usize,
    pub current: usize,
    pub line: usize,
}

impl Scanner {
    /// Basic well-formedness of the scanner state.
    pub open spec fn wf(self) -> bool {
        &&& self.current <= self.source.len()
        &&& self.source.len() < usize::MAX
        &&& self.line as int <= self.current as int + 1
        &&& 1 <= self.line
    }

    /// A scanner that has not yet scanned anything.
    pub open spec fn fresh(self, src: Seq<u8>) -> bool {
        &&& self.source@ == src
        &&& self.current == 0
        &&& self.start == 0
        &&& self.line == 1
        &&& self.tokens@.len() == 0
        &&& self.errors@.len() == 0
    }

    /// Relates the state after scanning one lexeme to the state before,
    /// given the step the specification prescribes.
    pub open spec fn lexeme_post(self, prev: Scanner, st: ScanStep) -> bool {
        &&& self.source == prev.source
        &&& self.start == prev.start
        &&& self.current as int == st.next_pos
        &&& self.line as int == st.next_line
        &&& token_views(self.tokens@) =~= token_views(prev.tokens@) + opt_seq(st.token)
        &&& error_views(self.errors@) =~= error_views(prev.errors@) + opt_seq(st.diag)
    }

    /// Relates the state after one `scan_token` call to the state before.
    pub open spec fn step_post(self, prev: Scanner) -> bool {
        self.lexeme_post(prev, scan_step(prev.source@, prev.current as int, prev.line as int))
    }

    pub fn new(source: Vec<u8>) -> (s: Scanner)
        requires
            source.len() < usize::MAX,
        ensures
            s.fresh(source@),
            s.wf(),
    {
        Scanner {
            source,
            tokens: Vec::new(),
            errors: Vec::new(),
            start: 0,
            current: 0,
            line: 1,
        }
    }

    pub fn get_tokens(&self) -> (r: &Vec<Token>)
        ensures
            r@ == self.tokens@,
    {
        &self.tokens
    }

    /// The diagnostics collected so far.
    pub fn get_errors(&self) -> (r: &Vec<ScanError>)
        ensures
            r@ == self.errors@,
    {
        &self.errors
    }

    fn is_eof(&self) -> (r: bool)
        ensures
            r == (self.current >= self.source.len()),
    {
        self.current >= self.source.len()
    }

    fn peek(&self) -> (r: u8)
        ensures
            r == byte_at(self.source@, self.current as int),
    {
        if self.current < self.source.len() {
            self.source[self.current]
        } else {
            0
        }
    }

    fn peek_next(&self) -> (r: u8)
        requires
            self.current < usize::MAX,
        ensures
            r == byte_at(self.source@, self.current as int + 1),
    {
        if self.current + 1 < self.source.len() {
            self.source[self.current + 1]
        } else {
            0
        }
    }

    fn at_digit(&self) -> (r: bool)
        ensures
            r == (self.current < self.source.len() && is_digit(
                self.source@[self.current as int],
            )),
    {
        self.current < self.source.len() && 48 <= self.source[self.current] && self.source[
            self.current
        ] <= 57
    }

    fn at_ident_char(&self) -> (r: bool)
        ensures
            r == (self.current < self.source.len() && is_ident_char(
                self.source@[self.current as int],
            )),
    {
        if self.current >= self.source.len() {
            return false;
        }
        let c = self.source[self.current];
        (65 <= c && c <= 90) || (97 <= c && c <= 122) || (48 <= c && c <= 57) || c == B_UNDERSCORE
    }

    fn advance(&mut self) -> (c: u8)
        requires
            old(self).current < old(self).source.len(),
            old(self).wf(),
        ensures
            final(self).wf(),
            c == old(self).source@[old(self).current as int],
            final(self).current == old(self).current + 1,
            final(self).source == old(self).source,
            final(self).tokens == old(self).tokens,
            final(self).errors == old(self).errors,
            final(self).start == old(self).start,
            final(self).line == old(self).line,
    {
        let c = self.source[self.current];
        self.current = self.current + 1;
        c
    }

    /// Appends a token whose lexeme is the source slice from `start` to
    /// `current`.
    fn add_token(&mut self, ty: TokenType)
        requires
            old(self).start <= old(self).current <= old(self).source.len(),
        ensures
            final(self).source == old(self).source,
            final(self).errors == old(self).errors,
            final(self).start == old(self).start,
            final(self).current == old(self).current,
            final(self).line == old(self).line,
            token_views(final(self).tokens@) == token_views(old(self).tokens@) + seq![
                TokenModel {
                    ty,
                    lexeme: old(self).source@.subrange(
                        old(self).start as int,
                        old(self).current as int,
                    ),
                    start: old(self).start as int,
                    end: old(self).current as int,
                    line: old(self).line as int,
                },
            ],
    {
        let lex = copy_range(&self.source, self.start, self.current);
        let t = Token::new(ty, lex, self.start, self.current, self.line);
        self.tokens.push(t);
        proof {
            assert(token_views(self.tokens@) =~= token_views(old(self).tokens@) + seq![t@]);
        }
    }

    /// Appends a token with an explicitly given lexeme (used for string
    /// literals, whose lexeme excludes the delimiters).
    fn add_token_with_lexeme(&mut self, ty: TokenType, text: Vec<u8>)
        ensures
            final(self).source == old(self).source,
            final(self).errors == old(self).errors,
            final(self).start == old(self).start,
            final(self).current == old(self).current,
            final(self).line == old(self).line,
            token_views(final(self).tokens@) == token_views(old(self).tokens@) + seq![
                TokenModel {
                    ty,
                    lexeme: text@,
                    start: old(self).start as int,
                    end: old(self).current as int,
                    line: old(self).line as int,
                },
            ],
    {
        let t = Token::new(ty, text, self.start, self.current, self.line);
        self.tokens.push(t);
        proof {
            assert(token_views(self.tokens@) =~= token_views(old(self).tokens@) + seq![t@]);
        }
    }

    fn add_error(&mut self, kind: ScanErrorKind, pos: usize)
        ensures
            final(self).source == old(self).source,
            final(self).tokens == old(self).tokens,
            final(self).start == old(self).start,
            final(self).current == old(self).current,
            final(self).line == old(self).line,
            error_views(final(self).errors@) == error_views(old(self).errors@) + seq![
                ScanErrorModel { kind, line: old(self).line as int, pos: pos as int },
            ],
    {
        let e = ScanError { kind, line: self.line, pos };
        self.errors.push(e);
        proof {
            assert(error_views(self.errors@) =~= error_views(old(self).errors@) + seq![e@]);
        }
    }

    /// Scans a string literal; entered with the cursor just past the opening
    /// quote.
    fn string(&mut self)
        requires
            old(self).wf(),
            old(self).current == old(self).start + 1,
            old(self).start < old(self).source.len(),
            old(self).source@[old(self).start as int] == B_QUOTE,
        ensures
            final(self).wf(),
            final(self).lexeme_post(
                *old(self),
                string_step(old(self).source@, old(self).start as int, old(self).line as int),
            ),
    {
        let ghost src = self.source@;
        let ghost content_start = self.start as int + 1;
        proof {
            lemma_scan_until(src, content_start, |c: u8| c == B_QUOTE);
        }
        while self.current < self.source.len() && self.source[self.current] != B_QUOTE
            invariant
                self.wf(),
                src == self.source@,
                self.source == old(self).source,
                self.tokens == old(self).tokens,
                self.errors == old(self).errors,
                self.start == old(self).start,
                content_start == self.start as int + 1,
                content_start <= self.current as int <= src.len(),
                skip_string(src, content_start) == skip_string(src, self.current as int),
                self.line as int == old(self).line + count_nl(src, content_start, self.current as int),
            decreases src.len() - self.current,
        {
            if self.source[self.current] == B_NL {
                self.line = self.line + 1;
            }
            proof {
                assert(count_nl(src, content_start, self.current + 1 as int) == count_nl(
                    src,
                    content_start,
                    self.current as int,
                ) + if src[self.current as int] == B_NL {
                    1int
                } else {
                    0int
                });
            }
            self.current = self.current + 1;
        }
        proof {
            assert(skip_string(src, self.current as int) == self.current as int);
        }
        let content_end = self.current;
        if self.current >= self.source.len() {
            self.add_error(ScanErrorKind::UnterminatedString, content_end);
        } else {
            self.current = self.current + 1;
        }
        let text = copy_range(&self.source, self.start + 1, content_end);
        self.add_token_with_lexeme(TokenType::Str, text);
    }

    /// Scans a numeric literal; entered with the cursor just past its first
    /// digit.
    fn number(&mut self)
        requires
            old(self).wf(),
            old(self).current == old(self).start + 1,
            old(self).start < old(self).source.len(),
            is_digit(old(self).source@[old(self).start as int]),
        ensures
            final(self).wf(),
            final(self).lexeme_post(
                *old(self),
                number_step(old(self).source@, old(self).start as int, old(self).line as int),
            ),
    {
        let ghost src = self.source@;
        let ghost pos = self.start as int;
        proof {
            lemma_scan_until(src, pos, |c: u8| !is_digit(c));
        }
        while self.at_digit()
            invariant
                self.wf(),
                src == self.source@,
                self.source == old(self).source,
                self.tokens == old(self).tokens,
                self.errors == old(self).errors,
                self.start == old(self).start,
                self.line == old(self).line,
                pos < self.current as int <= src.len(),
                skip_digits(src, pos) == skip_digits(src, self.current as int),
            decreases src.len() - self.current,
        {
            self.current = self.current + 1;
        }
        proof {
            assert(skip_digits(src, self.current as int) == self.current as int);
        }
        let ghost int_end = self.current as int;
        if self.current < self.source.len() && self.source[self.current] == B_DOT {
            let nxt = self.peek_next();
            if 48 <= nxt && nxt <= 57 {
                self.current = self.current + 1;
                proof {
                    lemma_scan_until(src, int_end + 1, |c: u8| !is_digit(c));
                }
                while self.at_digit()
                    invariant
                        self.wf(),
                        src == self.source@,
                        self.source == old(self).source,
                        self.tokens == old(self).tokens,
                        self.errors == old(self).errors,
                        self.start == old(self).start,
                        self.line == old(self).line,
                        int_end + 1 <= self.current as int <= src.len(),
                        skip_digits(src, int_end + 1) == skip_digits(src, self.current as int),
                    decreases src.len() - self.current,
                {
                    self.current = self.current + 1;
                }
                proof {
                    assert(skip_digits(src, self.current as int) == self.current as int);
                }
            } else {
                self.add_error(ScanErrorKind::MalformedNumber, self.current);
            }
        }
        self.add_token(TokenType::Number);
    }

    /// Scans an identifier or keyword; entered with the cursor just past its
    /// first byte.
    fn identifier(&mut self)
        requires
            old(self).wf(),
            old(self).current == old(self).start + 1,
            old(self).start < old(self).source.len(),
            is_ident_start(old(self).source@[old(self).start as int]),
        ensures
            final(self).wf(),
            final(self).lexeme_post(
                *old(self),
                ident_step(old(self).source@, old(self).start as int, old(self).line as int),
            ),
    {
        let ghost src = self.source@;
        let ghost pos = self.start as int;
        proof {
            lemma_scan_until(src, pos, |c: u8| !is_ident_char(c));
        }
        while self.at_ident_char()
            invariant
                self.wf(),
                src == self.source@,
                self.source == old(self).source,
                self.tokens == old(self).tokens,
                self.errors == old(self).errors,
                self.start == old(self).start,
                self.line == old(self).line,
                pos < self.current as int <= src.len(),
                skip_ident(src, pos) == skip_ident(src, self.current as int),
            decreases src.len() - self.current,
        {
            self.current = self.current + 1;
        }
        proof {
            assert(skip_ident(src, self.current as int) == self.current as int);
        }
        let lex = copy_range(&self.source, self.start, self.current);
        let ty = classify_ident(&lex);
        self.add_token(ty);
    }

    /// Scans one lexeme, whitespace run, or comment, implementing
    /// `scan_step`.
    fn scan_token(&mut self)
        requires
            old(self).wf(),
            old(self).current < old(self).source.len(),
            old(self).start == old(self).current,
        ensures
            final(self).wf(),
            final(self).step_post(*old(self)),
    {
        let ghost src = self.source@;
        let ghost pos = self.current as int;
        let c = self.advance();
        if c == B_LPAREN {
            self.add_token(TokenType::LeftParen);
        } else if c == B_RPAREN {
            self.add_token(TokenType::RightParen);
        } else if c == B_LBRACE {
            self.add_token(TokenType::LeftBrace);
        } else if c == B_RBRACE {
            self.add_token(TokenType::RightBrace);
        } else if c == B_COMMA {
            self.add_token(TokenType::Comma);
        } else if c == B_DOT {
            self.add_token(TokenType::Dot);
        } else if c == B_MINUS {
            self.add_token(TokenType::Minus);
        } else if c == B_PLUS {
            self.add_token(TokenType::Plus);
        } else if c == B_SEMI {
            self.add_token(TokenType::Semicolon);
        } else if c == B_STAR {
            self.add_token(TokenType::Star);
        } else if c == B_SLASH {
            if self.peek() == B_SLASH {
                proof {
                    lemma_scan_until(src, pos + 1, |b: u8| b == B_NL);
                }
                while self.current < self.source.len() && self.source[self.current] != B_NL
                    invariant
                        self.wf(),
                        src == self.source@,
                        self.source == old(self).source,
                        self.tokens == old(self).tokens,
                        self.errors == old(self).errors,
                        self.start == old(self).start,
                        self.line == old(self).line,
                        pos < self.current as int <= src.len(),
                        skip_line(src, pos + 1) == skip_line(src, self.current as int),
                    decreases src.len() - self.current,
                {
                    self.current = self.current + 1;
                }
                proof {
                    assert(skip_line(src, self.current as int) == self.current as int);
                }
            } else {
                self.add_token(TokenType::Slash);
            }
        } else if c == B_BANG {
            if self.peek() == B_EQ {
                self.current = self.current + 1;
                self.add_token(TokenType::BangEqual);
            } else {
                self.add_token(TokenType::Bang);
            }
        } else if c == B_EQ {
            if self.peek() == B_EQ {
                self.current = self.current + 1;
                self.add_token(TokenType::EqualEqual);
            } else {
                self.add_token(TokenType::Equal);
            }
        } else if c == B_LT {
            if self.peek() == B_EQ {
                self.current = self.current + 1;
                self.add_token(TokenType::LessEqual);
            } else {
                self.add_token(TokenType::Less);
            }
        } else if c == B_GT {
            if self.peek() == B_EQ {
                self.current = self.current + 1;
                self.add_token(TokenType::GreaterEqual);
            } else {
                self.add_token(TokenType::Greater);
            }
        } else if c == B_SPACE || c == B_CR || c == B_TAB {
        } else if c == B_NL {
            self.line = self.line + 1;
        } else if c == B_QUOTE {
            self.string();
        } else if 48 <= c && c <= 57 {
            self.number();
        } else if (65 <= c && c <= 90) || (97 <= c && c <= 122) || c == B_UNDERSCORE {
            self.identifier();
        } else {
            self.add_error(ScanErrorKind::UnexpectedCharacter(c), self.current);
        }
    }

    /// Scans the whole source: produces exactly the tokens and diagnostics
    /// of `scan_spec`, with the end-of-input token appended last.
    pub fn scan_tokens(&mut self)
        requires
            old(self).wf(),
            old(self).fresh(old(self).source@),
        ensures
            final(self).wf(),
            final(self).source == old(self).source,
            token_views(final(self).tokens@) == scan_spec(old(self).source@).tokens,
            error_views(final(self).errors@) == scan_spec(old(self).source@).errors,
    {
        let ghost src = self.source@;
        proof {
            assert(token_views(self.tokens@) =~= Seq::<TokenModel>::empty());
            assert(error_views(self.errors@) =~= Seq::<ScanErrorModel>::empty());
        }
        while self.current < self.source.len()
            invariant
                self.wf(),
                src == self.source@,
                self.source == old(self).source,
                scan_go(src, 0, 1).tokens =~= token_views(self.tokens@) + scan_go(
                    src,
                    self.current as int,
                    self.line as int,
                ).tokens,
                scan_go(src, 0, 1).errors =~= error_views(self.errors@) + scan_go(
                    src,
                    self.current as int,
                    self.line as int,
                ).errors,
                scan_go(src, 0, 1).end_line == scan_go(
                    src,
                    self.current as int,
                    self.line as int,
                ).end_line,
            decreases src.len() - self.current,
        {
            self.start = self.current;
            let ghost prev = *self;
            let ghost st = scan_step(src, self.current as int, self.line as int);
            proof {
                lemma_scan_step_advances(src, self.current as int, self.line as int);
            }
            self.scan_token();
            proof {
                assert(scan_go(src, prev.current as int, prev.line as int).tokens =~= opt_seq(
                    st.token,
                ) + scan_go(src, st.next_pos, st.next_line).tokens);
                assert(scan_go(src, prev.current as int, prev.line as int).errors =~= opt_seq(
                    st.diag,
                ) + scan_go(src, st.next_pos, st.next_line).errors);
                assert(token_views(self.tokens@) + scan_go(
                    src,
                    self.current as int,
                    self.line as int,
                ).tokens =~= (token_views(prev.tokens@) + opt_seq(st.token)) + scan_go(
                    src,
                    st.next_pos,
                    st.next_line,
                ).tokens);
                assert(error_views(self.errors@) + scan_go(
                    src,
                    self.current as int,
                    self.line as int,
                ).errors =~= (error_views(prev.errors@) + opt_seq(st.diag)) + scan_go(
                    src,
                    st.next_pos,
                    st.next_line,
                ).errors);
            }
        }
        self.start = self.current;
        let eof_lexeme: Vec<u8> = Vec::new();
        let len = self.source.len();
        let t = Token::new(TokenType::Eof, eof_lexeme, len, len, self.line);
        self.tokens.push(t);
        proof {
            assert(t@ == eof_token(src, self.line as int));
            assert(token_views(self.tokens@) =~= scan_go(src, 0, 1).tokens + seq![
                eof_token(src, scan_go(src, 0, 1).end_line),
            ]);
            assert(error_views(self.errors@) =~= scan_go(src, 0, 1).errors);
        }
    }
}

/// All bytes of `s[i..j]` are decimal digits.
pub open spec fn all_digits(s: Seq<u8>, i: int, j: int) -> bool {
    forall|k: int| i <= k < j ==> is_digit(#[trigger] s[k])
}

/// A valid numeric literal: a digit run, or a digit run with exactly one
/// embedded decimal point.
pub open spec fn is_numeric_literal(s: Seq<u8>) -> bool {
    s.len() > 0 && (all_digits(s, 0, s.len() as int) || (exists|d: int|
        1 <= d < s.len() - 1 && s[d] == B_DOT && all_digits(s, 0, d) && #[trigger] all_digits(
            s,
            d + 1,
            s.len() as int,
        )))
}

/// Scanning any valid numeric literal yields exactly one Number token whose
/// lexeme is the whole consumed text, followed by the end-of-input token,
/// and no diagnostics.
pub proof fn lemma_scan_numeric_literal(s: Seq<u8>)
    requires
        is_numeric_literal(s),
    ensures
        scan_spec(s).tokens =~= seq![
            TokenModel {
                ty: TokenType::Number,
                lexeme: s,
                start: 0,
                end: s.len() as int,
                line: 1,
            },
            eof_token(s, 1),
        ],
        scan_spec(s).errors =~= Seq::<ScanErrorModel>::empty(),
{
    let len = s.len() as int;
    lemma_scan_until(s, 0, |c: u8| !is_digit(c));
    if all_digits(s, 0, len) {
        let ie = skip_digits(s, 0);
        assert(ie == len) by {
            if ie < len {
                assert(is_digit(s[ie]));
            }
        }
        assert(scan_step(s, 0, 1) == punct_step(s, 0, 1, TokenType::Number, len));
        assert(s.subrange(0, len) =~= s);
    } else {
        let d = choose|d: int|
            1 <= d < s.len() - 1 && s[d] == B_DOT && all_digits(s, 0, d) && #[trigger] all_digits(
                s,
                d + 1,
                s.len() as int,
            );
        assert(is_digit(s[0]));
        let ie = skip_digits(s, 0);
        assert(ie == d) by {
            assert(!is_digit(B_DOT));
            if ie < d {
                assert(is_digit(s[ie]));
            }
            if ie > d {
                assert(!is_digit(s[d]));
            }
        }
        assert(is_digit(s[d + 1]));
        lemma_scan_until(s, d + 1, |c: u8| !is_digit(c));
        let fe = skip_digits(s, d + 1);
        assert(fe == len) by {
            if fe < len {
                assert(is_digit(s[fe]));
            }
        }
        assert(scan_step(s, 0, 1) == punct_step(s, 0, 1, TokenType::Number, len));
        assert(s.subrange(0, len) =~= s);
    }
    assert(scan_go(s, len, 1).tokens =~= Seq::<TokenModel>::empty());
}

/// Scanning a source that is an opening quote never followed by a closing
/// one completes, with exactly one String token that holds the whole
/// captured text after the opening quote, one unterminated-string diagnostic
/// at the line and position where the input ran out, and the end-of-input
/// token last.
pub proof fn lemma_scan_unterminated_string(s: Seq<u8>)
    requires
        s.len() >= 1,
        s[0] == B_QUOTE,
        forall|k: int| 1 <= k < s.len() ==> s[k] != B_QUOTE,
    ensures
        scan_spec(s).tokens =~= seq![
            TokenModel {
                ty: TokenType::Str,
                lexeme: s.subrange(1, s.len() as int),
                start: 0,
                end: s.len() as int,
                line: 1 + count_nl(s, 1, s.len() as int),
            },
            eof_token(s, 1 + count_nl(s, 1, s.len() as int)),
        ],
        scan_spec(s).errors =~= seq![
            ScanErrorModel {
                kind: ScanErrorKind::UnterminatedString,
                line: 1 + count_nl(s, 1, s.len() as int),
                pos: s.len() as int,
            },
        ],
{
    let len = s.len() as int;
    lemma_scan_until(s, 1, |c: u8| c == B_QUOTE);
    let cend = skip_string(s, 1);
    assert(cend == len) by {
        if cend < len {
            assert(s[cend] == B_QUOTE);
        }
    }
    let line2 = 1 + count_nl(s, 1, len);
    assert(scan_step(s, 0, 1) == string_step(s, 0, 1));
    assert(scan_go(s, len, line2).tokens =~= Seq::<TokenModel>::empty());
    assert(scan_go(s, len, line2).errors =~= Seq::<ScanErrorModel>::empty());
}

} // verus!
