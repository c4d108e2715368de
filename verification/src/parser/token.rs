//! Token kinds and tokens of the scripting language.

use vstd::prelude::*;

verus! {

/// Every kind of token the lexer can produce.
#[derive(Debug, PartialEq, Eq, Clone, Copy, Structural)]
pub enum TokenType {
    Real,
    Integer,
    Plus,
    Minus,
    Star,
    Slash,
    Equals,
    Bang,
    EqualsEquals,
    BangEquals,
    Less,
    Greater,
    LessEquals,
    GreaterEquals,
    LeftParen,
    RightParen,
    LeftSquareBracket,
    RightSquareBracket,
    LeftCurlyBracket,
    RightCurlyBracket,
    Identifier,
    Comma,
    Dot,
    DotDot,
    Let,
    True,
    False,
    Newline,
    Print,
    Or,
    And,
    If,
    Else,
    For,
    In,
}


/// The printable name of a token kind.
pub open spec fn token_type_name_s(t: TokenType) -> Seq<char> {
    match t {
        TokenType::Real => "Real"@,
        TokenType::Integer => "Integer"@,
        TokenType::Plus => "Plus"@,
        TokenType::Minus => "Minus"@,
        TokenType::Star => "Star"@,
        TokenType::Slash => "Slash"@,
        TokenType::Equals => "Equals"@,
        TokenType::Bang => "Bang"@,
        TokenType::EqualsEquals => "EqualsEquals"@,
        TokenType::BangEquals => "BangEquals"@,
        TokenType::Less => "Less"@,
        TokenType::Greater => "Greater"@,
        TokenType::LessEquals => "LessEquals"@,
        TokenType::GreaterEquals => "GreaterEquals"@,
        TokenType::LeftParen => "LeftParen"@,
        TokenType::RightParen => "RightParen"@,
        TokenType::LeftSquareBracket => "LeftSquareBracket"@,
        TokenType::RightSquareBracket => "RightSquareBracket"@,
        TokenType::LeftCurlyBracket => "LeftCurlyBracket"@,
        TokenType::RightCurlyBracket => "RightCurlyBracket"@,
        TokenType::Identifier => "Identifier"@,
        TokenType::Comma => "Comma"@,
        TokenType::Dot => "Dot"@,
        TokenType::DotDot => "DotDot"@,
        TokenType::Let => "Let"@,
        TokenType::True => "True"@,
        TokenType::False => "False"@,
        TokenType::Newline => "Newline"@,
        TokenType::Print => "Print"@,
        TokenType::Or => "Or"@,
        TokenType::And => "And"@,
        TokenType::If => "If"@,
        TokenType::Else => "Else"@,
        TokenType::For => "For"@,
        TokenType::In => "In"@,
    }
}

impl TokenType {
    /// The printable name of this token kind, for messages and traces.
    pub fn name(&self) -> (r: String)
        ensures
            r@ == token_type_name_s(*self),
    {
        match self {
            TokenType::Real => "Real".to_owned(),
            TokenType::Integer => "Integer".to_owned(),
            TokenType::Plus => "Plus".to_owned(),
            TokenType::Minus => "Minus".to_owned(),
            TokenType::Star => "Star".to_owned(),
            TokenType::Slash => "Slash".to_owned(),
            TokenType::Equals => "Equals".to_owned(),
            TokenType::Bang => "Bang".to_owned(),
            TokenType::EqualsEquals => "EqualsEquals".to_owned(),
            TokenType::BangEquals => "BangEquals".to_owned(),
            TokenType::Less => "Less".to_owned(),
            TokenType::Greater => "Greater".to_owned(),
            TokenType::LessEquals => "LessEquals".to_owned(),
            TokenType::GreaterEquals => "GreaterEquals".to_owned(),
            TokenType::LeftParen => "LeftParen".to_owned(),
            TokenType::RightParen => "RightParen".to_owned(),
            TokenType::LeftSquareBracket => "LeftSquareBracket".to_owned(),
            TokenType::RightSquareBracket => "RightSquareBracket".to_owned(),
            TokenType::LeftCurlyBracket => "LeftCurlyBracket".to_owned(),
            TokenType::RightCurlyBracket => "RightCurlyBracket".to_owned(),
            TokenType::Identifier => "Identifier".to_owned(),
            TokenType::Comma => "Comma".to_owned(),
            TokenType::Dot => "Dot".to_owned(),
            TokenType::DotDot => "DotDot".to_owned(),
            TokenType::Let => "Let".to_owned(),
            TokenType::True => "True".to_owned(),
            TokenType::False => "False".to_owned(),
            TokenType::Newline => "Newline".to_owned(),
            TokenType::Print => "Print".to_owned(),
            TokenType::Or => "Or".to_owned(),
            TokenType::And => "And".to_owned(),
            TokenType::If => "If".to_owned(),
            TokenType::Else => "Else".to_owned(),
            TokenType::For => "For".to_owned(),
            TokenType::In => "In".to_owned(),
        }
    }
}

/// A token: its kind and the characters it was scanned from.
#[derive(Debug, Clone, PartialEq)]
pub struct Token {
    pub token_type: TokenType,
    pub lexeme: String,
}

impl Token {
    /// Builds a token from its kind and lexeme.
    pub fn new(token_type: TokenType, lexeme: String) -> (r: Self)
        ensures
            r.token_type == token_type,
            r.lexeme == lexeme,
    {
        Self { token_type, lexeme }
    }
}

} // verus!
