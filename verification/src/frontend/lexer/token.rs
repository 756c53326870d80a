//! Tokens.

use vstd::prelude::*;

verus! {

#[derive(Debug, Clone, PartialEq)]
pub enum Token {
    Errno,
    Eof,
    Ident(String),
    /// A number, as its binary64 bit pattern.
    NumLit(u64),
    StrLit(String),
    Assign,
    Plus,
    Minus,
    Asterisk,
    Slash,
    Percent,
    Hat,
    Hash,
    Concat,
    Eq,
    Neq,
    Lt,
    Gt,
    Leq,
    Geq,
    LParen,
    RParen,
    LBrace,
    RBrace,
    LBracket,
    RBracket,
    Comma,
    Dot,
    Semicolon,
    Colon,
    At,
    KwAnd,
    KwOr,
    KwNot,
    KwNil,
    KwTrue,
    KwFalse,
    KwIf,
    KwThen,
    KwElse,
    KwElseIf,
    KwEnd,
    KwWhile,
    KwDo,
    KwRepeat,
    KwUntil,
    KwFunction,
    KwReturn,
    KwLocal,
}

/// A token as contracts see it: names and strings by their text.
pub enum TokenView {
    Errno,
    Eof,
    Ident(Seq<char>),
    NumLit(u64),
    StrLit(Seq<char>),
    Assign,
    Plus,
    Minus,
    Asterisk,
    Slash,
    Percent,
    Hat,
    Hash,
    Concat,
    Eq,
    Neq,
    Lt,
    Gt,
    Leq,
    Geq,
    LParen,
    RParen,
    LBrace,
    RBrace,
    LBracket,
    RBracket,
    Comma,
    Dot,
    Semicolon,
    Colon,
    At,
    KwAnd,
    KwOr,
    KwNot,
    KwNil,
    KwTrue,
    KwFalse,
    KwIf,
    KwThen,
    KwElse,
    KwElseIf,
    KwEnd,
    KwWhile,
    KwDo,
    KwRepeat,
    KwUntil,
    KwFunction,
    KwReturn,
    KwLocal,
}

impl View for Token {
    type V = TokenView;

    open spec fn view(&self) -> TokenView {
        match *self {
            Token::Errno => TokenView::Errno,
            Token::Eof => TokenView::Eof,
            Token::Ident(s) => TokenView::Ident(s@),
            Token::NumLit(n) => TokenView::NumLit(n),
            Token::StrLit(s) => TokenView::StrLit(s@),
            Token::Assign => TokenView::Assign,
            Token::Plus => TokenView::Plus,
            Token::Minus => TokenView::Minus,
            Token::Asterisk => TokenView::Asterisk,
            Token::Slash => TokenView::Slash,
            Token::Percent => TokenView::Percent,
            Token::Hat => TokenView::Hat,
            Token::Hash => TokenView::Hash,
            Token::Concat => TokenView::Concat,
            Token::Eq => TokenView::Eq,
            Token::Neq => TokenView::Neq,
            Token::Lt => TokenView::Lt,
            Token::Gt => TokenView::Gt,
            Token::Leq => TokenView::Leq,
            Token::Geq => TokenView::Geq,
            Token::LParen => TokenView::LParen,
            Token::RParen => TokenView::RParen,
            Token::LBrace => TokenView::LBrace,
            Token::RBrace => TokenView::RBrace,
            Token::LBracket => TokenView::LBracket,
            Token::RBracket => TokenView::RBracket,
            Token::Comma => TokenView::Comma,
            Token::Dot => TokenView::Dot,
            Token::Semicolon => TokenView::Semicolon,
            Token::Colon => TokenView::Colon,
            Token::At => TokenView::At,
            Token::KwAnd => TokenView::KwAnd,
            Token::KwOr => TokenView::KwOr,
            Token::KwNot => TokenView::KwNot,
            Token::KwNil => TokenView::KwNil,
            Token::KwTrue => TokenView::KwTrue,
            Token::KwFalse => TokenView::KwFalse,
            Token::KwIf => TokenView::KwIf,
            Token::KwThen => TokenView::KwThen,
            Token::KwElse => TokenView::KwElse,
            Token::KwElseIf => TokenView::KwElseIf,
            Token::KwEnd => TokenView::KwEnd,
            Token::KwWhile => TokenView::KwWhile,
            Token::KwDo => TokenView::KwDo,
            Token::KwRepeat => TokenView::KwRepeat,
            Token::KwUntil => TokenView::KwUntil,
            Token::KwFunction => TokenView::KwFunction,
            Token::KwReturn => TokenView::KwReturn,
            Token::KwLocal => TokenView::KwLocal,
        }
    }
}

/// The tokens as contracts see them.
pub open spec fn spec_token_views(tokens: Seq<Token>) -> Seq<TokenView> {
    tokens.map_values(|t: Token| t@)
}

impl Token {
    /// A copy of the token.
    pub fn dup(&self) -> (r: Token)
        ensures
            r == *self,
    {
        match self {
            Token::Errno => Token::Errno,
            Token::Eof => Token::Eof,
            Token::Ident(s) => Token::Ident(s.clone()),
            Token::NumLit(n) => Token::NumLit(*n),
            Token::StrLit(s) => Token::StrLit(s.clone()),
            Token::Assign => Token::Assign,
            Token::Plus => Token::Plus,
            Token::Minus => Token::Minus,
            Token::Asterisk => Token::Asterisk,
            Token::Slash => Token::Slash,
            Token::Percent => Token::Percent,
            Token::Hat => Token::Hat,
            Token::Hash => Token::Hash,
            Token::Concat => Token::Concat,
            Token::Eq => Token::Eq,
            Token::Neq => Token::Neq,
            Token::Lt => Token::Lt,
            Token::Gt => Token::Gt,
            Token::Leq => Token::Leq,
            Token::Geq => Token::Geq,
            Token::LParen => Token::LParen,
            Token::RParen => Token::RParen,
            Token::LBrace => Token::LBrace,
            Token::RBrace => Token::RBrace,
            Token::LBracket => Token::LBracket,
            Token::RBracket => Token::RBracket,
            Token::Comma => Token::Comma,
            Token::Dot => Token::Dot,
            Token::Semicolon => Token::Semicolon,
            Token::Colon => Token::Colon,
            Token::At => Token::At,
            Token::KwAnd => Token::KwAnd,
            Token::KwOr => Token::KwOr,
            Token::KwNot => Token::KwNot,
            Token::KwNil => Token::KwNil,
            Token::KwTrue => Token::KwTrue,
            Token::KwFalse => Token::KwFalse,
            Token::KwIf => Token::KwIf,
            Token::KwThen => Token::KwThen,
            Token::KwElse => Token::KwElse,
            Token::KwElseIf => Token::KwElseIf,
            Token::KwEnd => Token::KwEnd,
            Token::KwWhile => Token::KwWhile,
            Token::KwDo => Token::KwDo,
            Token::KwRepeat => Token::KwRepeat,
            Token::KwUntil => Token::KwUntil,
            Token::KwFunction => Token::KwFunction,
            Token::KwReturn => Token::KwReturn,
            Token::KwLocal => Token::KwLocal,
        }
    }

    /// Whether the two tokens are the same: of the same kind, and with the
    /// same text or number where the kind has one.
    pub fn same(&self, other: &Token) -> (r: bool)
        ensures
            r == (self@ == other@),
    {
        match (self, other) {
            (Token::Errno, Token::Errno) => true,
            (Token::Eof, Token::Eof) => true,
            (Token::Ident(a), Token::Ident(b)) => *a == *b,
            (Token::NumLit(a), Token::NumLit(b)) => *a == *b,
            (Token::StrLit(a), Token::StrLit(b)) => *a == *b,
            (Token::Assign, Token::Assign) => true,
            (Token::Plus, Token::Plus) => true,
            (Token::Minus, Token::Minus) => true,
            (Token::Asterisk, Token::Asterisk) => true,
            (Token::Slash, Token::Slash) => true,
            (Token::Percent, Token::Percent) => true,
            (Token::Hat, Token::Hat) => true,
            (Token::Hash, Token::Hash) => true,
            (Token::Concat, Token::Concat) => true,
            (Token::Eq, Token::Eq) => true,
            (Token::Neq, Token::Neq) => true,
            (Token::Lt, Token::Lt) => true,
            (Token::Gt, Token::Gt) => true,
            (Token::Leq, Token::Leq) => true,
            (Token::Geq, Token::Geq) => true,
            (Token::LParen, Token::LParen) => true,
            (Token::RParen, Token::RParen) => true,
            (Token::LBrace, Token::LBrace) => true,
            (Token::RBrace, Token::RBrace) => true,
            (Token::LBracket, Token::LBracket) => true,
            (Token::RBracket, Token::RBracket) => true,
            (Token::Comma, Token::Comma) => true,
            (Token::Dot, Token::Dot) => true,
            (Token::Semicolon, Token::Semicolon) => true,
            (Token::Colon, Token::Colon) => true,
            (Token::At, Token::At) => true,
            (Token::KwAnd, Token::KwAnd) => true,
            (Token::KwOr, Token::KwOr) => true,
            (Token::KwNot, Token::KwNot) => true,
            (Token::KwNil, Token::KwNil) => true,
            (Token::KwTrue, Token::KwTrue) => true,
            (Token::KwFalse, Token::KwFalse) => true,
            (Token::KwIf, Token::KwIf) => true,
            (Token::KwThen, Token::KwThen) => true,
            (Token::KwElse, Token::KwElse) => true,
            (Token::KwElseIf, Token::KwElseIf) => true,
            (Token::KwEnd, Token::KwEnd) => true,
            (Token::KwWhile, Token::KwWhile) => true,
            (Token::KwDo, Token::KwDo) => true,
            (Token::KwRepeat, Token::KwRepeat) => true,
            (Token::KwUntil, Token::KwUntil) => true,
            (Token::KwFunction, Token::KwFunction) => true,
            (Token::KwReturn, Token::KwReturn) => true,
            (Token::KwLocal, Token::KwLocal) => true,
            _ => false,
        }
    }
}

} // verus!
