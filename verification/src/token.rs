//! Tokens: the words and symbols that the tokenizer cuts a source file into.

use vstd::prelude::*;
use crate::source::Span;

verus! {

/// A token: what kind of word or symbol it is, and where it stands.
#[derive(Debug, Clone, Copy, PartialEq, Eq, Structural)]
pub struct Token {
    pub span: Span,
    pub kind: TokenKind,
}

/// The kinds of tokens.
#[derive(Debug, Clone, Copy, PartialEq, Eq, Structural)]
pub enum TokenKind {
    Fn,
    If,
    Let,
    Mut,
    Pub,
    Else,
    Comp,
    True,
    False,
    While,
    Return,
    At,
    Eq,
    Dot,
    EqEq,
    Semi,
    Plus,
    Star,
    Bang,
    Minus,
    Slash,
    Comma,
    Colon,
    RArrow,
    LCurly,
    RCurly,
    LParen,
    RParen,
    LBrack,
    RBrack,
    BangEq,
    PlusEq,
    StarEq,
    MinusEq,
    SlashEq,
    LessThan,
    LessThanOrEqual,
    GreaterThan,
    GreaterThanOrEqual,
    Identifier,
    NumberLiteral,
    StringLiteral,
}

/// How a token kind is written in messages.
pub open spec fn display_text(kind: TokenKind) -> Seq<char> {
    match kind {
        TokenKind::Fn => "fn"@,
        TokenKind::If => "if"@,
        TokenKind::Let => "let"@,
        TokenKind::Mut => "mut"@,
        TokenKind::Pub => "pub"@,
        TokenKind::Else => "else"@,
        TokenKind::Comp => "comp"@,
        TokenKind::True => "true"@,
        TokenKind::False => "false"@,
        TokenKind::While => "while"@,
        TokenKind::Return => "return"@,
        TokenKind::At => "@"@,
        TokenKind::Eq => "="@,
        TokenKind::Dot => "."@,
        TokenKind::EqEq => "=="@,
        TokenKind::Semi => ";"@,
        TokenKind::Plus => "+"@,
        TokenKind::Star => "*"@,
        TokenKind::Bang => "!"@,
        TokenKind::Minus => "-"@,
        TokenKind::Slash => "/"@,
        TokenKind::Comma => ","@,
        TokenKind::Colon => ":"@,
        TokenKind::RArrow => "->"@,
        TokenKind::LCurly => "{"@,
        TokenKind::RCurly => "}"@,
        TokenKind::LParen => "("@,
        TokenKind::RParen => ")"@,
        TokenKind::LBrack => "["@,
        TokenKind::RBrack => "]"@,
        TokenKind::BangEq => "!="@,
        TokenKind::PlusEq => "+="@,
        TokenKind::StarEq => "*="@,
        TokenKind::MinusEq => "-="@,
        TokenKind::SlashEq => "/="@,
        TokenKind::LessThan => "<"@,
        TokenKind::LessThanOrEqual => "<="@,
        TokenKind::GreaterThan => ">"@,
        TokenKind::GreaterThanOrEqual => ">="@,
        TokenKind::Identifier => "<identifier>"@,
        TokenKind::NumberLiteral => "<number-literal>"@,
        TokenKind::StringLiteral => "<string-literal>"@,
    }
}

impl TokenKind {
    /// How the kind is written in messages: the keyword or symbol itself,
    /// or a description in angle brackets for names and literals.
    pub fn display(self) -> (text: &'static str)
        ensures
            text@ == display_text(self),
    {
        match self {
            TokenKind::Fn => "fn",
            TokenKind::If => "if",
            TokenKind::Let => "let",
            TokenKind::Mut => "mut",
            TokenKind::Pub => "pub",
            TokenKind::Else => "else",
            TokenKind::Comp => "comp",
            TokenKind::True => "true",
            TokenKind::False => "false",
            TokenKind::While => "while",
            TokenKind::Return => "return",
            TokenKind::At => "@",
            TokenKind::Eq => "=",
            TokenKind::Dot => ".",
            TokenKind::EqEq => "==",
            TokenKind::Semi => ";",
            TokenKind::Plus => "+",
            TokenKind::Star => "*",
            TokenKind::Bang => "!",
            TokenKind::Minus => "-",
            TokenKind::Slash => "/",
            TokenKind::Comma => ",",
            TokenKind::Colon => ":",
            TokenKind::RArrow => "->",
            TokenKind::LCurly => "{",
            TokenKind::RCurly => "}",
            TokenKind::LParen => "(",
            TokenKind::RParen => ")",
            TokenKind::LBrack => "[",
            TokenKind::RBrack => "]",
            TokenKind::BangEq => "!=",
            TokenKind::PlusEq => "+=",
            TokenKind::StarEq => "*=",
            TokenKind::MinusEq => "-=",
            TokenKind::SlashEq => "/=",
            TokenKind::LessThan => "<",
            TokenKind::LessThanOrEqual => "<=",
            TokenKind::GreaterThan => ">",
            TokenKind::GreaterThanOrEqual => ">=",
            TokenKind::Identifier => "<identifier>",
            TokenKind::NumberLiteral => "<number-literal>",
            TokenKind::StringLiteral => "<string-literal>",
        }
    }
}

} // verus!
