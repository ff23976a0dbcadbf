//! The shared token vocabulary used by the lexer and the parser: token kinds,
//! tokens with their source position, and their mathematical views.

use vstd::prelude::*;

verus! {

/// Mathematical view of a token kind: literal text is a character sequence.
pub enum TokenTypeV {
    Illegal(Seq<char>),
    Semicolon,
    Identifier(Seq<char>),
    Int(Seq<char>),
    Float(Seq<char>),
    String(Seq<char>),
    True,
    False,
    LeftParen,
    RightParen,
    LeftBrace,
    RightBrace,
    Comma,
    Minus,
    Plus,
    Slash,
    Star,
    Bang,
    BangEqual,
    Equal,
    EqualEqual,
    Less,
    LessEqual,
    Greater,
    GreaterEqual,
    Fun,
    Loop,
    If,
    Else,
    Print,
    Return,
    Val,
    Var,
    Break,
    Continue,
}

/// The kind of a lexical token; literal text is preserved verbatim.
#[derive(Debug, PartialEq, Eq)]
pub enum TokenType {
    // Special tokens
    Illegal(String),
    Semicolon,
    // Literals and identifiers
    Identifier(String),
    Int(String),
    Float(String),
    String(String),
    True,
    False,
    // Delimiters
    LeftParen,
    RightParen,
    LeftBrace,
    RightBrace,
    Comma,
    // Operators and comparisons
    Minus,
    Plus,
    Slash,
    Star,
    Bang,
    BangEqual,
    Equal,
    EqualEqual,
    Less,
    LessEqual,
    Greater,
    GreaterEqual,
    // Keywords
    Fun,
    Loop,
    If,
    Else,
    Print,
    Return,
    Val,
    Var,
    Break,
    Continue,
}

impl DeepView for TokenType {
    type V = TokenTypeV;

    open spec fn deep_view(&self) -> TokenTypeV {
        match self {
            TokenType::Illegal(s) => TokenTypeV::Illegal(s@),
            TokenType::Semicolon => TokenTypeV::Semicolon,
            TokenType::Identifier(s) => TokenTypeV::Identifier(s@),
            TokenType::Int(s) => TokenTypeV::Int(s@),
            TokenType::Float(s) => TokenTypeV::Float(s@),
            TokenType::String(s) => TokenTypeV::String(s@),
            TokenType::True => TokenTypeV::True,
            TokenType::False => TokenTypeV::False,
            TokenType::LeftParen => TokenTypeV::LeftParen,
            TokenType::RightParen => TokenTypeV::RightParen,
            TokenType::LeftBrace => TokenTypeV::LeftBrace,
            TokenType::RightBrace => TokenTypeV::RightBrace,
            TokenType::Comma => TokenTypeV::Comma,
            TokenType::Minus => TokenTypeV::Minus,
            TokenType::Plus => TokenTypeV::Plus,
            TokenType::Slash => TokenTypeV::Slash,
            TokenType::Star => TokenTypeV::Star,
            TokenType::Bang => TokenTypeV::Bang,
            TokenType::BangEqual => TokenTypeV::BangEqual,
            TokenType::Equal => TokenTypeV::Equal,
            TokenType::EqualEqual => TokenTypeV::EqualEqual,
            TokenType::Less => TokenTypeV::Less,
            TokenType::LessEqual => TokenTypeV::LessEqual,
            TokenType::Greater => TokenTypeV::Greater,
            TokenType::GreaterEqual => TokenTypeV::GreaterEqual,
            TokenType::Fun => TokenTypeV::Fun,
            TokenType::Loop => TokenTypeV::Loop,
            TokenType::If => TokenTypeV::If,
            TokenType::Else => TokenTypeV::Else,
            TokenType::Print => TokenTypeV::Print,
            TokenType::Return => TokenTypeV::Return,
            TokenType::Val => TokenTypeV::Val,
            TokenType::Var => TokenTypeV::Var,
            TokenType::Break => TokenTypeV::Break,
            TokenType::Continue => TokenTypeV::Continue,
        }
    }
}

impl Clone for TokenType {
    fn clone(&self) -> (r: TokenType)
        ensures
            r.deep_view() == self.deep_view(),
    {
        match self {
            TokenType::Illegal(s) => TokenType::Illegal(s.clone()),
            TokenType::Semicolon => TokenType::Semicolon,
            TokenType::Identifier(s) => TokenType::Identifier(s.clone()),
            TokenType::Int(s) => TokenType::Int(s.clone()),
            TokenType::Float(s) => TokenType::Float(s.clone()),
            TokenType::String(s) => TokenType::String(s.clone()),
            TokenType::True => TokenType::True,
            TokenType::False => TokenType::False,
            TokenType::LeftParen => TokenType::LeftParen,
            TokenType::RightParen => TokenType::RightParen,
            TokenType::LeftBrace => TokenType::LeftBrace,
            TokenType::RightBrace => TokenType::RightBrace,
            TokenType::Comma => TokenType::Comma,
            TokenType::Minus => TokenType::Minus,
            TokenType::Plus => TokenType::Plus,
            TokenType::Slash => TokenType::Slash,
            TokenType::Star => TokenType::Star,
            TokenType::Bang => TokenType::Bang,
            TokenType::BangEqual => TokenType::BangEqual,
            TokenType::Equal => TokenType::Equal,
            TokenType::EqualEqual => TokenType::EqualEqual,
            TokenType::Less => TokenType::Less,
            TokenType::LessEqual => TokenType::LessEqual,
            TokenType::Greater => TokenType::Greater,
            TokenType::GreaterEqual => TokenType::GreaterEqual,
            TokenType::Fun => TokenType::Fun,
            TokenType::Loop => TokenType::Loop,
            TokenType::If => TokenType::If,
            TokenType::Else => TokenType::Else,
            TokenType::Print => TokenType::Print,
            TokenType::Return => TokenType::Return,
            TokenType::Val => TokenType::Val,
            TokenType::Var => TokenType::Var,
            TokenType::Break => TokenType::Break,
            TokenType::Continue => TokenType::Continue,
        }
    }
}

/// Mathematical view of a token.
pub struct TokenV {
    pub token_type: TokenTypeV,
    pub char: int,
    pub line: int,
}

/// A token: its kind and source position. `line` counts from 1; `char` is the
/// column of the token's last character, counting from 0 on each line.
#[derive(Debug, PartialEq, Eq)]
pub struct Token {
    pub token_type: TokenType,
    pub char: usize,
    pub line: usize,
}

impl DeepView for Token {
    type V = TokenV;

    open spec fn deep_view(&self) -> TokenV {
        TokenV { token_type: self.token_type.deep_view(), char: self.char as int, line: self.line as int }
    }
}

impl Clone for Token {
    fn clone(&self) -> (r: Token)
        ensures
            r.deep_view() == self.deep_view(),
    {
        Token { token_type: self.token_type.clone(), char: self.char, line: self.line }
    }
}

/// The kinds after which a newline ends the statement: an implicit semicolon
/// is synthesized when a newline follows a token of one of these kinds.
pub open spec fn is_terminator(t: TokenTypeV) -> bool {
    match t {
        TokenTypeV::Identifier(_) => true,
        TokenTypeV::Int(_) => true,
        TokenTypeV::Float(_) => true,
        TokenTypeV::String(_) => true,
        TokenTypeV::True => true,
        TokenTypeV::False => true,
        TokenTypeV::RightParen => true,
        TokenTypeV::RightBrace => true,
        TokenTypeV::Return => true,
        TokenTypeV::Continue => true,
        TokenTypeV::Break => true,
        _ => false,
    }
}

/// Decides `is_terminator` on an executable token kind.
pub(crate) fn terminates_statement(t: &TokenType) -> (r: bool)
    ensures
        r == is_terminator(t.deep_view()),
{
    match t {
        TokenType::Identifier(_) => true,
        TokenType::Int(_) => true,
        TokenType::Float(_) => true,
        TokenType::String(_) => true,
        TokenType::True => true,
        TokenType::False => true,
        TokenType::RightParen => true,
        TokenType::RightBrace => true,
        TokenType::Return => true,
        TokenType::Continue => true,
        TokenType::Break => true,
        _ => false,
    }
}

/// A sequence of tokens, as the lexer hands it to a consumer.
#[derive(Debug, PartialEq, Eq)]
pub struct Tokens {
    tokens: Vec<Token>,
}

impl View for Tokens {
    type V = Seq<TokenV>;

    closed spec fn view(&self) -> Seq<TokenV> {
        self.tokens.deep_view()
    }
}

impl Tokens {
    pub fn new(tokens: Vec<Token>) -> (r: Tokens)
        ensures
            r@ == tokens.deep_view(),
    {
        Tokens { tokens }
    }

    pub fn len(&self) -> (r: usize)
        ensures
            r == self@.len(),
    {
        self.tokens.len()
    }

    pub fn get(&self, i: usize) -> (r: &Token)
        requires
            i < self@.len(),
        ensures
            r.deep_view() == self@[i as int],
    {
        &self.tokens[i]
    }
}

} // verus!
