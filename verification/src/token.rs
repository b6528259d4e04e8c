//! The tokens of the language.

use vstd::prelude::*;
use crate::literal::{Literal, LiteralView};

verus! {

/// A token: a punctuation mark, a reserved word, an identifier or a literal.
#[derive(Debug)]
pub enum Token {
    OParen,
    CParen,
    OAngle,
    CAngle,
    Colon,
    Semicolon,
    Comma,
    Equals,
    QMark,
    TypeKwd,
    TableKwd,
    SchemaKwd,
    Ident(String),
    Literal(Literal),
}

/// The mathematical content of a [`Token`].
pub enum TokenView {
    OParen,
    CParen,
    OAngle,
    CAngle,
    Colon,
    Semicolon,
    Comma,
    Equals,
    QMark,
    TypeKwd,
    TableKwd,
    SchemaKwd,
    Ident(Seq<char>),
    Literal(LiteralView),
}

impl View for Token {
    type V = TokenView;

    open spec fn view(&self) -> TokenView {
        match self {
            Token::OParen => TokenView::OParen,
            Token::CParen => TokenView::CParen,
            Token::OAngle => TokenView::OAngle,
            Token::CAngle => TokenView::CAngle,
            Token::Colon => TokenView::Colon,
            Token::Semicolon => TokenView::Semicolon,
            Token::Comma => TokenView::Comma,
            Token::Equals => TokenView::Equals,
            Token::QMark => TokenView::QMark,
            Token::TypeKwd => TokenView::TypeKwd,
            Token::TableKwd => TokenView::TableKwd,
            Token::SchemaKwd => TokenView::SchemaKwd,
            Token::Ident(s) => TokenView::Ident(s@),
            Token::Literal(l) => TokenView::Literal(l@),
        }
    }
}

impl Clone for Token {
    fn clone(&self) -> (r: Self)
        ensures
            r@ == self@,
    {
        match self {
            Token::OParen => Token::OParen,
            Token::CParen => Token::CParen,
            Token::OAngle => Token::OAngle,
            Token::CAngle => Token::CAngle,
            Token::Colon => Token::Colon,
            Token::Semicolon => Token::Semicolon,
            Token::Comma => Token::Comma,
            Token::Equals => Token::Equals,
            Token::QMark => Token::QMark,
            Token::TypeKwd => Token::TypeKwd,
            Token::TableKwd => Token::TableKwd,
            Token::SchemaKwd => Token::SchemaKwd,
            Token::Ident(s) => Token::Ident(s.clone()),
            Token::Literal(l) => Token::Literal(l.clone()),
        }
    }
}

impl Token {
    /// Whether the token is an identifier or a text literal.
    pub fn is_ident_or_str_literal_tok(&self) -> (r: bool)
        ensures
            r == (self@ is Ident || (self@ matches TokenView::Literal(l) && l is Str)),
    {
        match self {
            Token::Ident(_) => true,
            Token::Literal(literal) => literal.is_str(),
            _ => false,
        }
    }

    /// The text of an identifier or of a text literal.
    pub fn get_ident_or_str_literal(&self) -> (r: Option<String>)
        ensures
            match self@ {
                TokenView::Ident(s) => r is Some && r->0@ == s,
                TokenView::Literal(LiteralView::Str(s)) => r is Some && r->0@ == s,
                _ => r is None,
            },
    {
        match self {
            Token::Ident(ident) => Some(ident.clone()),
            Token::Literal(literal) => literal.get_str(),
            _ => None,
        }
    }

    pub fn is_literal(&self) -> (r: bool)
        ensures
            r == (self@ is Literal),
    {
        match self {
            Token::Literal(_) => true,
            _ => false,
        }
    }

    /// The literal, where the token is one.
    pub fn get_literal(&self) -> (r: Option<&Literal>)
        ensures
            match self@ {
                TokenView::Literal(l) => r is Some && r->0@ == l,
                _ => r is None,
            },
    {
        match self {
            Token::Literal(literal) => Some(literal),
            _ => None,
        }
    }
}

} // verus!
