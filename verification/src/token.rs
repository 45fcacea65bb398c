//! Tokens: the immutable classification of one lexeme, with its source
//! offsets and line number.

use vstd::prelude::*;

verus! {

/// The closed set of token kinds: punctuation, one- and two-character
/// operators, literal kinds, keywords, and the end-of-input marker.
#[derive(Clone, Copy, PartialEq, Eq, Structural, Debug)]
pub enum TokenType {
    LeftParen,
    RightParen,
    LeftBrace,
    RightBrace,
    Semicolon,
    Colon,
    Dot,
    Comma,
    Plus,
    Minus,
    Star,
    Slash,
    Equal,
    EqualEqual,
    Bang,
    BangEqual,
    Less,
    LessEqual,
    Greater,
    GreaterEqual,
    Identifier,
    Str,
    Number,
    Class,
    Super,
    This,
    Fun,
    Var,
    If,
    Else,
    For,
    While,
    And,
    Or,
    Return,
    Break,
    Continue,
    True,
    False,
    Nil,
    Print,
    Eof,
}

/// Mathematical model of a token: its kind, the lexeme bytes, the byte
/// offsets of the lexeme in the source, and the line it was scanned on.
pub struct TokenModel {
    pub ty: TokenType,
    pub lexeme: Seq<u8>,
    pub start: int,
    pub end: int,
    pub line: int,
}

/// One lexical unit of the source text. Created by the scanner, consumed
/// read-only by the parser, never mutated.
#[derive(Debug, PartialEq, Clone)]
pub struct Token {
    pub token_type: TokenType,
    pub lexeme: Vec<u8>,
    pub start: usize,
    pub end: usize,
    pub line: usize,
}

impl View for Token {
    type V = TokenModel;

    open spec fn view(&self) -> TokenModel {
        TokenModel {
            ty: self.token_type,
            lexeme: self.lexeme@,
            start: self.start as int,
            end: self.end as int,
            line: self.line as int,
        }
    }
}

/// Copies a byte vector; the copy holds exactly the same bytes.
pub fn clone_bytes(v: &Vec<u8>) -> (r: Vec<u8>)
    ensures
        r@ == v@,
{
    let r = v.clone();
    proof {
        assert(r@ =~= v@);
    }
    r
}

impl Token {
    pub fn new(token_type: TokenType, lexeme: Vec<u8>, start: usize, end: usize, line: usize) -> (t:
        Token)
        ensures
            t@ == (TokenModel {
                ty: token_type,
                lexeme: lexeme@,
                start: start as int,
                end: end as int,
                line: line as int,
            }),
    {
        Token { token_type, lexeme, start, end, line }
    }

    pub fn get_type(&self) -> (t: TokenType)
        ensures
            t == self@.ty,
    {
        self.token_type
    }

    pub fn get_lexeme(&self) -> (l: &Vec<u8>)
        ensures
            l@ == self@.lexeme,
    {
        &self.lexeme
    }

    pub fn get_start(&self) -> (s: usize)
        ensures
            s as int == self@.start,
    {
        self.start
    }

    pub fn get_end(&self) -> (e: usize)
        ensures
            e as int == self@.end,
    {
        self.end
    }

    pub fn get_line(&self) -> (l: usize)
        ensures
            l as int == self@.line,
    {
        self.line
    }

    /// An owned copy of this token, equal to it in the model.
    pub fn duplicate(&self) -> (t: Token)
        ensures
            t@ == self@,
    {
        Token {
            token_type: self.token_type,
            lexeme: clone_bytes(&self.lexeme),
            start: self.start,
            end: self.end,
            line: self.line,
        }
    }
}

} // verus!
