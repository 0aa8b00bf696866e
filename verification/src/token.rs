//! Tokens: the atomic input of the parser, as a lexer produces them.

use vstd::prelude::*;

verus! {

/// The lexical category of a token.  The set is closed: the lexer emits
/// nothing else, and the parser dispatches on it alone.
///
/// There is no end-of-file sentinel; the end of the input is detected
/// positionally by the cursor.
#[derive(Clone, Copy, Debug, PartialEq, Eq, Structural)]
pub enum TokenType {
    LeftParen,
    RightParen,
    LeftBrace,
    RightBrace,
    Comma,
    Minus,
    Plus,
    Slash,
    Star,
    Bang,
    BangEqual,
    Equal,
    EqualEqual,
    Greater,
    GreaterEqual,
    Less,
    LessEqual,
    Number,
    Str,
    True,
    False,
    Nil,
    Identifier,
    If,
    Else,
    Print,
    Var,
    Function,
}

/// A literal value attached to a literal-bearing token (`Number`, `Str`,
/// `True`, `False`); `Nil` stands for an absent literal on every other kind.
///
/// A numeric literal is carried as the numeral's source text: the parser
/// never computes with it, and reading it as a machine number is the
/// evaluator's concern, outside this library.
#[derive(Debug, PartialEq)]
pub enum Object {
    Number(String),
    Str(String),
    Bool(bool),
    Nil,
}

/// One lexical unit.  Tokens are immutable once produced; the parser clones
/// them into the tree nodes that need them (operators, identifiers).
#[derive(Debug, PartialEq)]
pub struct Token {
    pub kind: TokenType,
    /// The original text slice of the token.
    pub lexeme: String,
    /// The literal value, for literal-bearing kinds; `Object::Nil` otherwise.
    pub literal: Object,
    /// Source line, kept for later diagnostics; the parser never reads it.
    pub line: u32,
}

/// The mathematical value of an `Object`: strings as character sequences.
pub enum ObjectV {
    Number(Seq<char>),
    Str(Seq<char>),
    Bool(bool),
    Nil,
}

/// The mathematical value of a `Token`.
pub struct TokenV {
    pub kind: TokenType,
    pub lexeme: Seq<char>,
    pub literal: ObjectV,
    pub line: u32,
}

impl View for Object {
    type V = ObjectV;

    open spec fn view(&self) -> ObjectV {
        match self {
            Object::Number(s) => ObjectV::Number(s@),
            Object::Str(s) => ObjectV::Str(s@),
            Object::Bool(b) => ObjectV::Bool(*b),
            Object::Nil => ObjectV::Nil,
        }
    }
}

impl View for Token {
    type V = TokenV;

    open spec fn view(&self) -> TokenV {
        TokenV { kind: self.kind, lexeme: self.lexeme@, literal: self.literal@, line: self.line }
    }
}

impl Clone for Object {
    /// A clone carries the same literal value.
    fn clone(&self) -> (r: Self)
        ensures
            r@ == self@,
    {
        match self {
            Object::Number(s) => Object::Number(s.clone()),
            Object::Str(s) => Object::Str(s.clone()),
            Object::Bool(b) => Object::Bool(*b),
            Object::Nil => Object::Nil,
        }
    }
}

impl Clone for Token {
    /// A clone is the same token, field for field.
    fn clone(&self) -> (r: Self)
        ensures
            r@ == self@,
    {
        Token {
            kind: self.kind,
            lexeme: self.lexeme.clone(),
            literal: self.literal.clone(),
            line: self.line,
        }
    }
}

impl Token {
    /// Builds a token; a convenience for lexers and tests.
    pub fn new(kind: TokenType, lexeme: String, literal: Object, line: u32) -> (t: Token)
        ensures
            t@ == (TokenV { kind, lexeme: lexeme@, literal: literal@, line }),
    {
        Token { kind, lexeme, literal, line }
    }
}

/// The mathematical value of a token vector.
pub open spec fn toks_view(s: Seq<Token>) -> Seq<TokenV> {
    Seq::new(s.len(), |i: int| s[i]@)
}

/// Appending a token appends its value.
pub proof fn lemma_toks_view_push(s: Seq<Token>, t: Token)
    ensures
        toks_view(s.push(t)) == toks_view(s).push(t@),
{
    assert(toks_view(s.push(t)) =~= toks_view(s).push(t@));
}

} // verus!
