//! The token: the lexer's output unit.

use vstd::prelude::*;
use crate::number::{float_eq, float_equals};

verus! {

/// The kind of a lexical token.
///
/// A number literal holds the IEEE-754 double its text denotes, as its bit
/// pattern.
#[derive(Debug, Clone)]
pub enum TokenKind {
    // Literals
    Number(u64),
    Str(String),
    Identifier(String),
    // Keywords
    Var,
    Fn,
    If,
    Else,
    While,
    Return,
    Print,
    True,
    False,
    Nil,
    And,
    Or,
    // Punctuation
    LParen,
    RParen,
    LBrace,
    RBrace,
    Semicolon,
    Comma,
    // Operators
    Plus,
    Minus,
    Star,
    Slash,
    Percent,
    Eq,
    EqEq,
    NotEq,
    Less,
    LessEq,
    Greater,
    GreaterEq,
    Bang,
    Eof,
}

/// The abstract token kind: payloads are character sequences.
pub enum Kind {
    Number(u64),
    Str(Seq<char>),
    Identifier(Seq<char>),
    Var,
    Fn,
    If,
    Else,
    While,
    Return,
    Print,
    True,
    False,
    Nil,
    And,
    Or,
    LParen,
    RParen,
    LBrace,
    RBrace,
    Semicolon,
    Comma,
    Plus,
    Minus,
    Star,
    Slash,
    Percent,
    Eq,
    EqEq,
    NotEq,
    Less,
    LessEq,
    Greater,
    GreaterEq,
    Bang,
    Eof,
}

/// The abstract kind of an exec kind.
#[verifier::opaque]
pub open spec fn kind_view(k: TokenKind) -> Kind {
    match k {
        TokenKind::Number(n) => Kind::Number(n),
        TokenKind::Str(s) => Kind::Str(s@),
        TokenKind::Identifier(s) => Kind::Identifier(s@),
        TokenKind::Var => Kind::Var,
        TokenKind::Fn => Kind::Fn,
        TokenKind::If => Kind::If,
        TokenKind::Else => Kind::Else,
        TokenKind::While => Kind::While,
        TokenKind::Return => Kind::Return,
        TokenKind::Print => Kind::Print,
        TokenKind::True => Kind::True,
        TokenKind::False => Kind::False,
        TokenKind::Nil => Kind::Nil,
        TokenKind::And => Kind::And,
        TokenKind::Or => Kind::Or,
        TokenKind::LParen => Kind::LParen,
        TokenKind::RParen => Kind::RParen,
        TokenKind::LBrace => Kind::LBrace,
        TokenKind::RBrace => Kind::RBrace,
        TokenKind::Semicolon => Kind::Semicolon,
        TokenKind::Comma => Kind::Comma,
        TokenKind::Plus => Kind::Plus,
        TokenKind::Minus => Kind::Minus,
        TokenKind::Star => Kind::Star,
        TokenKind::Slash => Kind::Slash,
        TokenKind::Percent => Kind::Percent,
        TokenKind::Eq => Kind::Eq,
        TokenKind::EqEq => Kind::EqEq,
        TokenKind::NotEq => Kind::NotEq,
        TokenKind::Less => Kind::Less,
        TokenKind::LessEq => Kind::LessEq,
        TokenKind::Greater => Kind::Greater,
        TokenKind::GreaterEq => Kind::GreaterEq,
        TokenKind::Bang => Kind::Bang,
        TokenKind::Eof => Kind::Eof,
    }
}

impl View for TokenKind {
    type V = Kind;

    open spec fn view(&self) -> Kind {
        kind_view(*self)
    }
}

/// The variant of a kind, ignoring its payload (two kinds with the same tag
/// differ at most in their text).
pub open spec fn tag(k: Kind) -> nat {
    match k {
        Kind::Number(_) => 0,
        Kind::Str(_) => 1,
        Kind::Identifier(_) => 2,
        Kind::Var => 3,
        Kind::Fn => 4,
        Kind::If => 5,
        Kind::Else => 6,
        Kind::While => 7,
        Kind::Return => 8,
        Kind::Print => 9,
        Kind::True => 10,
        Kind::False => 11,
        Kind::Nil => 12,
        Kind::And => 13,
        Kind::Or => 14,
        Kind::LParen => 15,
        Kind::RParen => 16,
        Kind::LBrace => 17,
        Kind::RBrace => 18,
        Kind::Semicolon => 19,
        Kind::Comma => 20,
        Kind::Plus => 21,
        Kind::Minus => 22,
        Kind::Star => 23,
        Kind::Slash => 24,
        Kind::Percent => 25,
        Kind::Eq => 26,
        Kind::EqEq => 27,
        Kind::NotEq => 28,
        Kind::Less => 29,
        Kind::LessEq => 30,
        Kind::Greater => 31,
        Kind::GreaterEq => 32,
        Kind::Bang => 33,
        Kind::Eof => 34,
    }
}

/// Whether `k` is a kind that carries no text.
pub open spec fn textless(k: Kind) -> bool {
    !(k is Number) && !(k is Str) && !(k is Identifier)
}

/// Two kinds with equal tags are equal when one of them carries no text.
pub proof fn lemma_tag_textless(a: Kind, b: Kind)
    requires
        textless(b),
    ensures
        (tag(a) == tag(b)) == (a == b),
{
}

/// The abstract kinds of the kinds that carry no text.
pub proof fn lemma_kind_view_textless()
    ensures
        kind_view(TokenKind::Var) == Kind::Var,
        kind_view(TokenKind::Fn) == Kind::Fn,
        kind_view(TokenKind::If) == Kind::If,
        kind_view(TokenKind::Else) == Kind::Else,
        kind_view(TokenKind::While) == Kind::While,
        kind_view(TokenKind::Return) == Kind::Return,
        kind_view(TokenKind::Print) == Kind::Print,
        kind_view(TokenKind::True) == Kind::True,
        kind_view(TokenKind::False) == Kind::False,
        kind_view(TokenKind::Nil) == Kind::Nil,
        kind_view(TokenKind::And) == Kind::And,
        kind_view(TokenKind::Or) == Kind::Or,
        kind_view(TokenKind::LParen) == Kind::LParen,
        kind_view(TokenKind::RParen) == Kind::RParen,
        kind_view(TokenKind::LBrace) == Kind::LBrace,
        kind_view(TokenKind::RBrace) == Kind::RBrace,
        kind_view(TokenKind::Semicolon) == Kind::Semicolon,
        kind_view(TokenKind::Comma) == Kind::Comma,
        kind_view(TokenKind::Plus) == Kind::Plus,
        kind_view(TokenKind::Minus) == Kind::Minus,
        kind_view(TokenKind::Star) == Kind::Star,
        kind_view(TokenKind::Slash) == Kind::Slash,
        kind_view(TokenKind::Percent) == Kind::Percent,
        kind_view(TokenKind::Eq) == Kind::Eq,
        kind_view(TokenKind::EqEq) == Kind::EqEq,
        kind_view(TokenKind::NotEq) == Kind::NotEq,
        kind_view(TokenKind::Less) == Kind::Less,
        kind_view(TokenKind::LessEq) == Kind::LessEq,
        kind_view(TokenKind::Greater) == Kind::Greater,
        kind_view(TokenKind::GreaterEq) == Kind::GreaterEq,
        kind_view(TokenKind::Bang) == Kind::Bang,
        kind_view(TokenKind::Eof) == Kind::Eof,
{
    reveal(kind_view);
}

/// The abstract kind of any kind: text kinds keep their text.
pub proof fn lemma_kind_view(k: TokenKind)
    ensures
        match k {
            TokenKind::Number(n) => kind_view(k) == Kind::Number(n),
            TokenKind::Str(s) => kind_view(k) == Kind::Str(s@),
            TokenKind::Identifier(s) => kind_view(k) == Kind::Identifier(s@),
            _ => textless(kind_view(k)),
        },
{
    reveal(kind_view);
}

/// Only the kind `Eof` has the abstract kind `Eof`.
pub proof fn lemma_eof_kind(k: TokenKind)
    ensures
        (kind_view(k) == Kind::Eof) == (k is Eof),
{
    reveal(kind_view);
}

/// Kind equality: number tokens compare as doubles (the two zeros are equal,
/// and a NaN equals nothing); other kinds are equal when they are the same
/// kind with the same text.
pub open spec fn kinds_equal(a: Kind, b: Kind) -> bool {
    match (a, b) {
        (Kind::Number(x), Kind::Number(y)) => float_eq(x, y),
        _ => a == b,
    }
}

impl PartialEq for TokenKind {
    fn eq(&self, other: &Self) -> (r: bool) {
        proof {
            reveal(kind_view);
        }
        match (self, other) {
            (TokenKind::Number(a), TokenKind::Number(b)) => float_equals(*a, *b),
            (TokenKind::Str(a), TokenKind::Str(b)) => *a == *b,
            (TokenKind::Identifier(a), TokenKind::Identifier(b)) => *a == *b,
            (TokenKind::Number(_), _) | (TokenKind::Str(_), _) | (TokenKind::Identifier(_), _) => false,
            _ => {
                proof {
                    lemma_tag_textless(other@, self@);
                }
                self.tag() == other.tag()
            },
        }
    }
}

impl vstd::std_specs::cmp::PartialEqSpecImpl for TokenKind {
    open spec fn obeys_eq_spec() -> bool {
        true
    }

    open spec fn eq_spec(&self, other: &TokenKind) -> bool {
        kinds_equal(self@, other@)
    }
}

impl TokenKind {
    /// Whether this kind is `other`, which carries no text.
    pub fn is(&self, other: &TokenKind) -> (b: bool)
        requires
            textless(other@),
        ensures
            b == (self@ == other@),
    {
        proof {
            lemma_tag_textless(self@, other@);
        }
        self.tag() == other.tag()
    }

    /// The variant of this kind, ignoring its payload.
    pub fn tag(&self) -> (t: u8)
        ensures
            t as nat == tag(self@),
    {
        proof {
            reveal(kind_view);
        }
        match self {
            TokenKind::Number(_) => 0,
            TokenKind::Str(_) => 1,
            TokenKind::Identifier(_) => 2,
            TokenKind::Var => 3,
            TokenKind::Fn => 4,
            TokenKind::If => 5,
            TokenKind::Else => 6,
            TokenKind::While => 7,
            TokenKind::Return => 8,
            TokenKind::Print => 9,
            TokenKind::True => 10,
            TokenKind::False => 11,
            TokenKind::Nil => 12,
            TokenKind::And => 13,
            TokenKind::Or => 14,
            TokenKind::LParen => 15,
            TokenKind::RParen => 16,
            TokenKind::LBrace => 17,
            TokenKind::RBrace => 18,
            TokenKind::Semicolon => 19,
            TokenKind::Comma => 20,
            TokenKind::Plus => 21,
            TokenKind::Minus => 22,
            TokenKind::Star => 23,
            TokenKind::Slash => 24,
            TokenKind::Percent => 25,
            TokenKind::Eq => 26,
            TokenKind::EqEq => 27,
            TokenKind::NotEq => 28,
            TokenKind::Less => 29,
            TokenKind::LessEq => 30,
            TokenKind::Greater => 31,
            TokenKind::GreaterEq => 32,
            TokenKind::Bang => 33,
            TokenKind::Eof => 34,
        }
    }
}

/// A token with its source position (1-based line and column).
#[derive(Debug, Clone, PartialEq)]
pub struct Token {
    pub kind: TokenKind,
    pub line: usize,
    pub col: usize,
}

/// The abstract token.
pub struct TokenV {
    pub kind: Kind,
    pub line: nat,
    pub col: nat,
}

impl View for Token {
    type V = TokenV;

    open spec fn view(&self) -> TokenV {
        TokenV { kind: self.kind@, line: self.line as nat, col: self.col as nat }
    }
}

/// The abstract tokens of a token vector.
pub open spec fn tokens_view(ts: Seq<Token>) -> Seq<TokenV> {
    ts.map_values(|t: Token| t@)
}

} // verus!
