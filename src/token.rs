//! Tokens of the scene-description language.

use vstd::prelude::*;

verus! {

/// A token. Identifiers and numbers keep the characters they were read from.
#[derive(Clone, Debug)]
pub enum Token {
    Identifier(Vec<char>),
    Number(Vec<char>),
    LBrace,
    RBrace,
    LBracket,
    RBracket,
    LParen,
    RParen,
    Colon,
    Comma,
}

/// A token as a mathematical value.
pub enum TokenView {
    Identifier(Seq<char>),
    Number(Seq<char>),
    LBrace,
    RBrace,
    LBracket,
    RBracket,
    LParen,
    RParen,
    Colon,
    Comma,
}

/// The kind of a token, without its characters.
#[derive(Copy, Clone, Debug, PartialEq, Eq, Structural)]
pub enum TokenKind {
    Identifier,
    Number,
    LBrace,
    RBrace,
    LBracket,
    RBracket,
    LParen,
    RParen,
    Colon,
    Comma,
}

impl View for Token {
    type V = TokenView;

    open spec fn view(&self) -> TokenView {
        match self {
            Token::Identifier(v) => TokenView::Identifier(v@),
            Token::Number(v) => TokenView::Number(v@),
            Token::LBrace => TokenView::LBrace,
            Token::RBrace => TokenView::RBrace,
            Token::LBracket => TokenView::LBracket,
            Token::RBracket => TokenView::RBracket,
            Token::LParen => TokenView::LParen,
            Token::RParen => TokenView::RParen,
            Token::Colon => TokenView::Colon,
            Token::Comma => TokenView::Comma,
        }
    }
}

impl TokenView {
    pub open spec fn kind(self) -> TokenKind {
        match self {
            TokenView::Identifier(_) => TokenKind::Identifier,
            TokenView::Number(_) => TokenKind::Number,
            TokenView::LBrace => TokenKind::LBrace,
            TokenView::RBrace => TokenKind::RBrace,
            TokenView::LBracket => TokenKind::LBracket,
            TokenView::RBracket => TokenKind::RBracket,
            TokenView::LParen => TokenKind::LParen,
            TokenView::RParen => TokenKind::RParen,
            TokenView::Colon => TokenKind::Colon,
            TokenView::Comma => TokenKind::Comma,
        }
    }
}

impl Token {
    /// The kind of this token.
    pub fn kind(&self) -> (r: TokenKind)
        ensures
            r == self@.kind(),
    {
        match self {
            Token::Identifier(_) => TokenKind::Identifier,
            Token::Number(_) => TokenKind::Number,
            Token::LBrace => TokenKind::LBrace,
            Token::RBrace => TokenKind::RBrace,
            Token::LBracket => TokenKind::LBracket,
            Token::RBracket => TokenKind::RBracket,
            Token::LParen => TokenKind::LParen,
            Token::RParen => TokenKind::RParen,
            Token::Colon => TokenKind::Colon,
            Token::Comma => TokenKind::Comma,
        }
    }
}

} // verus!
