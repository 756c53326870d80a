//! The lexer: from the bytes of the source text to tokens.
//!
//! The lexer goes by bytes. White space is the space and the control
//! characters from tab to carriage return; a comment starts with two hyphens
//! and ends before the next newline. A numeral is digits, and after them,
//! optionally, a point and digits; the lexer hands its text out for the host
//! to convert. A string literal starts with a quote of either kind and ends
//! with the next quote of that kind that no backslash stands before; its text
//! is what stands between them, as it is.

pub mod token;

use vstd::prelude::*;
use vstd::string::StringSliceAdditionalSpecFns;
use vstd::utf8::{decode_utf8, encode_utf8, is_char_boundary};
use crate::frontend::lexer::token::{Token, TokenView};

verus! {

#[derive(Debug, Clone, Copy, PartialEq, Eq, Structural)]
pub enum LexerError {
    UnexpectedCharacter(char),
    UnterminatedString,
    InvalidNumber,
}

/// What the lexer finds next: a token, or the text of a numeral.
#[derive(Debug, Clone, PartialEq)]
pub enum Lexeme {
    Token(Token),
    Number(String),
}

pub struct Lexer<'a> {
    pub input: &'a str,
    pub pos: usize,
    pub errors: Vec<LexerError>,
}

pub open spec fn spec_is_space(b: u8) -> bool {
    b == 32 || (9 <= b <= 13)
}

pub open spec fn spec_is_digit(b: u8) -> bool {
    48 <= b <= 57
}

pub open spec fn spec_is_alpha(b: u8) -> bool {
    (65 <= b <= 90) || (97 <= b <= 122)
}

pub open spec fn spec_is_ident(b: u8) -> bool {
    spec_is_alpha(b) || spec_is_digit(b) || b == 95
}

/// The first position at or after `pos` that holds no white space.
pub open spec fn spec_skip_ws(b: Seq<u8>, pos: int) -> int
    decreases b.len() - pos,
{
    if 0 <= pos < b.len() && spec_is_space(b[pos]) {
        spec_skip_ws(b, pos + 1)
    } else {
        pos
    }
}

/// The first position at or after `pos` that holds a newline, or the end.
pub open spec fn spec_skip_line(b: Seq<u8>, pos: int) -> int
    decreases b.len() - pos,
{
    if 0 <= pos < b.len() && b[pos] != 10 {
        spec_skip_line(b, pos + 1)
    } else {
        pos
    }
}

/// The first position at or after `pos` that holds neither white space
/// nor a comment.
pub open spec fn spec_skip_ws_and_comments(b: Seq<u8>, pos: int) -> int
    decreases b.len() - pos,
{
    let p = spec_skip_ws(b, pos);
    if pos <= p && 0 <= p && p + 1 < b.len() && b[p] == 45 && b[p + 1] == 45 {
        let q = spec_skip_line(b, p + 2);
        if p + 2 <= q <= b.len() {
            spec_skip_ws_and_comments(b, q)
        } else {
            p
        }
    } else {
        p
    }
}

/// The first position at or after `pos` that holds no digit.
pub open spec fn spec_skip_digits(b: Seq<u8>, pos: int) -> int
    decreases b.len() - pos,
{
    if 0 <= pos < b.len() && spec_is_digit(b[pos]) {
        spec_skip_digits(b, pos + 1)
    } else {
        pos
    }
}

/// The first position at or after `pos` that holds no letter, digit or
/// underscore.
pub open spec fn spec_skip_ident(b: Seq<u8>, pos: int) -> int
    decreases b.len() - pos,
{
    if 0 <= pos < b.len() && spec_is_ident(b[pos]) {
        spec_skip_ident(b, pos + 1)
    } else {
        pos
    }
}

/// Where the numeral that starts at `pos` ends.
pub open spec fn spec_num_end(b: Seq<u8>, pos: int) -> int {
    let p = spec_skip_digits(b, pos);
    if 0 <= p < b.len() && b[p] == 46 {
        spec_skip_digits(b, p + 1)
    } else {
        p
    }
}

/// The position of the quote that closes the string literal whose text
/// starts at `pos`, if there is one; `escape` tells whether a backslash
/// stands just before `pos`.
pub open spec fn spec_str_close(b: Seq<u8>, pos: int, quote: u8, escape: bool) -> Option<int>
    decreases b.len() - pos,
{
    if pos < 0 || pos >= b.len() {
        None
    } else if escape {
        spec_str_close(b, pos + 1, quote, false)
    } else if b[pos] == 92 {
        spec_str_close(b, pos + 1, quote, true)
    } else if b[pos] == quote {
        Some(pos)
    } else {
        spec_str_close(b, pos + 1, quote, false)
    }
}

/// The skips go forwards, and stop within the text.
pub proof fn lemma_skips(b: Seq<u8>, pos: int)
    requires
        0 <= pos <= b.len(),
    ensures
        pos <= spec_skip_ws(b, pos) <= b.len(),
        pos <= spec_skip_line(b, pos) <= b.len(),
        pos <= spec_skip_digits(b, pos) <= b.len(),
        pos <= spec_skip_ident(b, pos) <= b.len(),
    decreases b.len() - pos,
{
    if pos < b.len() {
        lemma_skips(b, pos + 1);
    }
}

/// Skipping white space and comments goes forwards, and stops within the
/// text.
pub proof fn lemma_skip_ws_and_comments(b: Seq<u8>, pos: int)
    requires
        0 <= pos <= b.len(),
    ensures
        pos <= spec_skip_ws_and_comments(b, pos) <= b.len(),
    decreases b.len() - pos,
{
    lemma_skips(b, pos);
    let p = spec_skip_ws(b, pos);
    if p + 1 < b.len() && b[p] == 45 && b[p + 1] == 45 {
        lemma_skips(b, p + 2);
        lemma_skip_ws_and_comments(b, spec_skip_line(b, p + 2));
    }
}

/// A string literal closes within the text.
pub proof fn lemma_str_close(b: Seq<u8>, pos: int, quote: u8, escape: bool)
    requires
        0 <= pos <= b.len(),
    ensures
        spec_str_close(b, pos, quote, escape) matches Some(c) ==> pos <= c < b.len() && b[c]
            == quote,
    decreases b.len() - pos,
{
    if pos < b.len() {
        lemma_str_close(b, pos + 1, quote, false);
        lemma_str_close(b, pos + 1, quote, true);
    }
}

/// What the lexer finds next, as contracts see it.
pub enum LexemeView {
    Token(TokenView),
    Number(Seq<char>),
}

impl View for Lexeme {
    type V = LexemeView;

    open spec fn view(&self) -> LexemeView {
        match *self {
            Lexeme::Token(t) => LexemeView::Token(t@),
            Lexeme::Number(s) => LexemeView::Number(s@),
        }
    }
}

/// Whether the bytes from `begin` to `end` are whole characters.
pub open spec fn spec_sliceable(b: Seq<u8>, begin: int, end: int) -> bool {
    is_char_boundary(b, end) && is_char_boundary(b.subrange(0, end), begin)
}

/// The token for a word: a keyword, or an identifier.
pub open spec fn spec_word(text: Seq<char>) -> TokenView {
    if text == "and"@ {
        TokenView::KwAnd
    } else if text == "or"@ {
        TokenView::KwOr
    } else if text == "not"@ {
        TokenView::KwNot
    } else if text == "nil"@ {
        TokenView::KwNil
    } else if text == "true"@ {
        TokenView::KwTrue
    } else if text == "false"@ {
        TokenView::KwFalse
    } else if text == "if"@ {
        TokenView::KwIf
    } else if text == "then"@ {
        TokenView::KwThen
    } else if text == "else"@ {
        TokenView::KwElse
    } else if text == "elseif"@ {
        TokenView::KwElseIf
    } else if text == "end"@ {
        TokenView::KwEnd
    } else if text == "while"@ {
        TokenView::KwWhile
    } else if text == "do"@ {
        TokenView::KwDo
    } else if text == "repeat"@ {
        TokenView::KwRepeat
    } else if text == "until"@ {
        TokenView::KwUntil
    } else if text == "function"@ {
        TokenView::KwFunction
    } else if text == "return"@ {
        TokenView::KwReturn
    } else if text == "local"@ {
        TokenView::KwLocal
    } else {
        TokenView::Ident(text)
    }
}

/// What a scan gives: the lexeme, where the scan has stopped, and the
/// error that it has met, if any.
pub struct Scan {
    pub lexeme: LexemeView,
    pub end: int,
    pub error: Option<LexerError>,
}

/// The token that starts with the byte `c` at `p`, which starts no
/// numeral, string or word: an operator or a punctuation mark of one or two
/// bytes. Any other byte is the error `UnexpectedCharacter`.
pub open spec fn spec_symbol(b: Seq<u8>, p: int, c: u8) -> Scan {
    let next = if p + 1 < b.len() {
        Some(b[p + 1])
    } else {
        None
    };
    let one = |t: TokenView| Scan { lexeme: LexemeView::Token(t), end: p + 1, error: None };
    let two = |t: TokenView| Scan { lexeme: LexemeView::Token(t), end: p + 2, error: None };
    if c == 43 {
        one(TokenView::Plus)
    } else if c == 45 {
        one(TokenView::Minus)
    } else if c == 42 {
        one(TokenView::Asterisk)
    } else if c == 47 {
        one(TokenView::Slash)
    } else if c == 37 {
        one(TokenView::Percent)
    } else if c == 94 {
        one(TokenView::Hat)
    } else if c == 35 {
        one(TokenView::Hash)
    } else if c == 46 {
        if next == Some(46u8) {
            two(TokenView::Concat)
        } else {
            one(TokenView::Dot)
        }
    } else if c == 61 {
        if next == Some(61u8) {
            two(TokenView::Eq)
        } else {
            one(TokenView::Assign)
        }
    } else if c == 126 {
        if next == Some(61u8) {
            two(TokenView::Neq)
        } else {
            one(TokenView::Errno)
        }
    } else if c == 60 {
        if next == Some(61u8) {
            two(TokenView::Leq)
        } else {
            one(TokenView::Lt)
        }
    } else if c == 62 {
        if next == Some(61u8) {
            two(TokenView::Geq)
        } else {
            one(TokenView::Gt)
        }
    } else if c == 40 {
        one(TokenView::LParen)
    } else if c == 41 {
        one(TokenView::RParen)
    } else if c == 123 {
        one(TokenView::LBrace)
    } else if c == 125 {
        one(TokenView::RBrace)
    } else if c == 91 {
        one(TokenView::LBracket)
    } else if c == 93 {
        one(TokenView::RBracket)
    } else if c == 44 {
        one(TokenView::Comma)
    } else if c == 59 {
        one(TokenView::Semicolon)
    } else if c == 58 {
        one(TokenView::Colon)
    } else if c == 64 {
        one(TokenView::At)
    } else {
        Scan {
            lexeme: LexemeView::Token(TokenView::Errno),
            end: p + 1,
            error: Some(LexerError::UnexpectedCharacter(c as char)),
        }
    }
}

/// The lexeme that starts at or after `pos`, after white space and
/// comments: the end of the text, a numeral, a string literal, a word, or a
/// symbol. Where the bytes of a numeral, a string or a word are no whole
/// characters the lexeme is `Errno`, with an error.
pub open spec fn spec_scan(b: Seq<u8>, pos: int) -> Scan {
    let p = spec_skip_ws_and_comments(b, pos);
    if p < 0 || p >= b.len() {
        Scan { lexeme: LexemeView::Token(TokenView::Eof), end: p, error: None }
    } else {
        let c = b[p];
        if spec_is_digit(c) {
            let e = spec_num_end(b, p);
            if spec_sliceable(b, p, e) {
                Scan {
                    lexeme: LexemeView::Number(decode_utf8(b.subrange(p, e))),
                    end: e,
                    error: None,
                }
            } else {
                Scan {
                    lexeme: LexemeView::Token(TokenView::Errno),
                    end: e,
                    error: Some(LexerError::InvalidNumber),
                }
            }
        } else if c == 34 || c == 39 {
            match spec_str_close(b, p + 1, c, false) {
                Some(q) => if spec_sliceable(b, p + 1, q) {
                    Scan {
                        lexeme: LexemeView::Token(
                            TokenView::StrLit(decode_utf8(b.subrange(p + 1, q))),
                        ),
                        end: q + 1,
                        error: None,
                    }
                } else {
                    Scan {
                        lexeme: LexemeView::Token(TokenView::Errno),
                        end: q + 1,
                        error: Some(LexerError::UnterminatedString),
                    }
                },
                None => Scan {
                    lexeme: LexemeView::Token(TokenView::StrLit(Seq::empty())),
                    end: b.len() as int,
                    error: Some(LexerError::UnterminatedString),
                },
            }
        } else if spec_is_alpha(c) || c == 95 {
            let e = spec_skip_ident(b, p);
            if spec_sliceable(b, p, e) {
                Scan {
                    lexeme: LexemeView::Token(spec_word(decode_utf8(b.subrange(p, e)))),
                    end: e,
                    error: None,
                }
            } else {
                Scan {
                    lexeme: LexemeView::Token(TokenView::Errno),
                    end: e,
                    error: Some(LexerError::UnexpectedCharacter(c as char)),
                }
            }
        } else {
            spec_symbol(b, p, c)
        }
    }
}

fn is_space(b: u8) -> (r: bool)
    ensures
        r == spec_is_space(b),
{
    b == 32 || (9 <= b && b <= 13)
}

fn is_digit(b: u8) -> (r: bool)
    ensures
        r == spec_is_digit(b),
{
    48 <= b && b <= 57
}

fn is_alpha(b: u8) -> (r: bool)
    ensures
        r == spec_is_alpha(b),
{
    (65 <= b && b <= 90) || (97 <= b && b <= 122)
}

fn is_ident(b: u8) -> (r: bool)
    ensures
        r == spec_is_ident(b),
{
    is_alpha(b) || is_digit(b) || b == 95
}

fn is_text(s: &String, word: &str) -> (r: bool)
    ensures
        r == (s@ == word@),
{
    let w = String::from_str(word);
    *s == w
}

impl<'a> Lexer<'a> {
    /// The bytes of the source text.
    pub open spec fn bytes(&self) -> Seq<u8> {
        encode_utf8(self.input@)
    }

    /// The lexer's invariant: the position is within the text.
    pub open spec fn wf(&self) -> bool {
        self.pos <= self.bytes().len()
    }

    pub fn new(input: &'a str) -> (r: Lexer<'a>)
        ensures
            r.wf(),
            r.input == input,
            r.pos == 0,
            r.errors@.len() == 0,
    {
        Lexer { input, pos: 0, errors: Vec::new() }
    }

    /// The errors that the lexer has met so far.
    pub fn get_err(&self) -> (r: &Vec<LexerError>)
        ensures
            *r == self.errors,
    {
        &self.errors
    }

    /// The position of the lexer, in bytes.
    pub fn get_pos(&self) -> (r: usize)
        ensures
            r == self.pos,
    {
        self.pos
    }

    /// Records an error.
    pub fn emit_err(&mut self, err: LexerError)
        ensures
            final(self).errors@ == old(self).errors@.push(err),
            final(self).input == old(self).input,
            final(self).pos == old(self).pos,
    {
        self.errors.push(err);
    }

    /// Whether the lexer is at the end of the text.
    pub fn is_eof(&self) -> (r: bool)
        ensures
            r == (self.pos >= self.bytes().len()),
    {
        self.pos >= self.input.as_bytes().len()
    }

    /// Skips white space.
    pub fn skip_ws(&mut self)
        requires
            old(self).wf(),
        ensures
            final(self).wf(),
            final(self).pos == spec_skip_ws(old(self).bytes(), old(self).pos as int),
            final(self).input == old(self).input,
            final(self).errors == old(self).errors,
    {
        let bytes = self.input.as_bytes();
        while self.pos < bytes.len() && is_space(bytes[self.pos])
            invariant
                bytes@ == self.bytes(),
                self.pos <= bytes@.len(),
                self.input == old(self).input,
                self.errors == old(self).errors,
                spec_skip_ws(bytes@, old(self).pos as int) == spec_skip_ws(bytes@, self.pos as int),
            decreases bytes@.len() - self.pos,
        {
            self.pos = self.pos + 1;
        }
    }

    fn skip_line(&mut self)
        requires
            old(self).wf(),
        ensures
            final(self).wf(),
            final(self).pos == spec_skip_line(old(self).bytes(), old(self).pos as int),
            final(self).input == old(self).input,
            final(self).errors == old(self).errors,
    {
        let bytes = self.input.as_bytes();
        while self.pos < bytes.len() && bytes[self.pos] != 10
            invariant
                bytes@ == self.bytes(),
                self.pos <= bytes@.len(),
                self.input == old(self).input,
                self.errors == old(self).errors,
                spec_skip_line(bytes@, old(self).pos as int) == spec_skip_line(
                    bytes@,
                    self.pos as int,
                ),
            decreases bytes@.len() - self.pos,
        {
            self.pos = self.pos + 1;
        }
    }

    fn skip_digits(&mut self)
        requires
            old(self).wf(),
        ensures
            final(self).wf(),
            final(self).pos == spec_skip_digits(old(self).bytes(), old(self).pos as int),
            final(self).input == old(self).input,
            final(self).errors == old(self).errors,
    {
        let bytes = self.input.as_bytes();
        while self.pos < bytes.len() && is_digit(bytes[self.pos])
            invariant
                bytes@ == self.bytes(),
                self.pos <= bytes@.len(),
                self.input == old(self).input,
                self.errors == old(self).errors,
                spec_skip_digits(bytes@, old(self).pos as int) == spec_skip_digits(
                    bytes@,
                    self.pos as int,
                ),
            decreases bytes@.len() - self.pos,
        {
            self.pos = self.pos + 1;
        }
    }

    fn skip_ident(&mut self)
        requires
            old(self).wf(),
        ensures
            final(self).wf(),
            final(self).pos == spec_skip_ident(old(self).bytes(), old(self).pos as int),
            final(self).input == old(self).input,
            final(self).errors == old(self).errors,
    {
        let bytes = self.input.as_bytes();
        while self.pos < bytes.len() && is_ident(bytes[self.pos])
            invariant
                bytes@ == self.bytes(),
                self.pos <= bytes@.len(),
                self.input == old(self).input,
                self.errors == old(self).errors,
                spec_skip_ident(bytes@, old(self).pos as int) == spec_skip_ident(
                    bytes@,
                    self.pos as int,
                ),
            decreases bytes@.len() - self.pos,
        {
            self.pos = self.pos + 1;
        }
    }

    /// Skips white space and comments.
    pub fn skip_ws_and_comments(&mut self)
        requires
            old(self).wf(),
        ensures
            final(self).wf(),
            final(self).pos == spec_skip_ws_and_comments(old(self).bytes(), old(self).pos as int),
            final(self).input == old(self).input,
            final(self).errors == old(self).errors,
    {
        let bytes = self.input.as_bytes();
        loop
            invariant_except_break
                spec_skip_ws_and_comments(bytes@, old(self).pos as int)
                    == spec_skip_ws_and_comments(bytes@, self.pos as int),
            invariant
                bytes@ == self.bytes(),
                self.wf(),
                self.input == old(self).input,
                self.errors == old(self).errors,
            ensures
                self.wf(),
                self.input == old(self).input,
                self.errors == old(self).errors,
                self.pos == spec_skip_ws_and_comments(bytes@, old(self).pos as int),
            decreases bytes@.len() - self.pos,
        {
            proof {
                lemma_skips(bytes@, self.pos as int);
            }
            self.skip_ws();
            let p = self.pos;
            if p < bytes.len() && p + 1 < bytes.len() && bytes[p] == 45 && bytes[p + 1] == 45 {
                self.pos = p + 2;
                proof {
                    lemma_skips(bytes@, p + 2);
                }
                self.skip_line();
            } else {
                break ;
            }
        }
    }

    /// The byte at the position, as a character.
    pub open spec fn spec_peek(&self) -> Option<char> {
        if self.pos < self.bytes().len() {
            Some(self.bytes()[self.pos as int] as char)
        } else {
            None
        }
    }

    /// The byte at the position, as a character.
    pub fn peek_char(&self) -> (r: Option<char>)
        requires
            self.wf(),
        ensures
            r == self.spec_peek(),
    {
        let bytes = self.input.as_bytes();
        if self.pos >= bytes.len() {
            None
        } else {
            Some(bytes[self.pos] as char)
        }
    }

    /// The byte at the position, which is then one further.
    pub fn advance(&mut self) -> (r: Option<char>)
        requires
            old(self).wf(),
        ensures
            final(self).wf(),
            final(self).input == old(self).input,
            final(self).errors == old(self).errors,
            r == old(self).spec_peek(),
            final(self).pos == if old(self).pos < old(self).bytes().len() {
                old(self).pos + 1
            } else {
                old(self).pos as int
            },
    {
        let bytes = self.input.as_bytes();
        if self.pos >= bytes.len() {
            None
        } else {
            let c = bytes[self.pos] as char;
            self.pos = self.pos + 1;
            Some(c)
        }
    }

    /// The text between two positions, if the bytes are whole characters.
    pub fn slice(&self, begin: usize, end: usize) -> (r: Option<String>)
        requires
            begin <= end <= self.bytes().len(),
        ensures
            match r {
                Some(s) => spec_sliceable(self.bytes(), begin as int, end as int) && s@
                    == decode_utf8(self.bytes().subrange(begin as int, end as int)),
                None => !spec_sliceable(self.bytes(), begin as int, end as int),
            },
    {
        if !self.input.is_char_boundary(end) {
            return None;
        }
        let (head, _) = self.input.split_at(end);
        if !head.is_char_boundary(begin) {
            return None;
        }
        let (_, mid) = head.split_at(begin);
        let s = String::from_str(mid);
        proof {
            let b = self.bytes();
            assert(mid.spec_bytes() =~= b.subrange(begin as int, end as int));
            vstd::utf8::encode_utf8_decode_utf8(s@);
        }
        Some(s)
    }

    /// The token for a word: a keyword, or `None` for an identifier.
    pub fn is_keyword(s: &String) -> (r: Option<Token>)
        ensures
            match r {
                Some(t) => t@ == spec_word(s@) && !(t is Ident),
                None => spec_word(s@) == TokenView::Ident(s@),
            },
    {
        if is_text(s, "and") {
            Some(Token::KwAnd)
        } else if is_text(s, "or") {
            Some(Token::KwOr)
        } else if is_text(s, "not") {
            Some(Token::KwNot)
        } else if is_text(s, "nil") {
            Some(Token::KwNil)
        } else if is_text(s, "true") {
            Some(Token::KwTrue)
        } else if is_text(s, "false") {
            Some(Token::KwFalse)
        } else if is_text(s, "if") {
            Some(Token::KwIf)
        } else if is_text(s, "then") {
            Some(Token::KwThen)
        } else if is_text(s, "else") {
            Some(Token::KwElse)
        } else if is_text(s, "elseif") {
            Some(Token::KwElseIf)
        } else if is_text(s, "end") {
            Some(Token::KwEnd)
        } else if is_text(s, "while") {
            Some(Token::KwWhile)
        } else if is_text(s, "do") {
            Some(Token::KwDo)
        } else if is_text(s, "repeat") {
            Some(Token::KwRepeat)
        } else if is_text(s, "until") {
            Some(Token::KwUntil)
        } else if is_text(s, "function") {
            Some(Token::KwFunction)
        } else if is_text(s, "return") {
            Some(Token::KwReturn)
        } else if is_text(s, "local") {
            Some(Token::KwLocal)
        } else {
            None
        }
    }
}

impl<'a> Lexer<'a> {
    /// Scans the numeral at the position, and hands out its text.
    pub fn num_literal(&mut self) -> (r: Lexeme)
        requires
            old(self).wf(),
        ensures
            final(self).wf(),
            final(self).input == old(self).input,
            final(self).pos == spec_num_end(old(self).bytes(), old(self).pos as int),
            if spec_sliceable(old(self).bytes(), old(self).pos as int, final(self).pos as int) {
                r@ == LexemeView::Number(
                    decode_utf8(
                        old(self).bytes().subrange(old(self).pos as int, final(self).pos as int),
                    ),
                ) && final(self).errors == old(self).errors
            } else {
                r@ == LexemeView::Token(TokenView::Errno) && final(self).errors@ == old(self).errors@.push(LexerError::InvalidNumber)
            },
    {
        let begin = self.pos;
        let bytes = self.input.as_bytes();
        proof {
            lemma_skips(bytes@, self.pos as int);
        }
        self.skip_digits();
        if self.pos < bytes.len() && bytes[self.pos] == 46 {
            self.pos = self.pos + 1;
            proof {
                lemma_skips(bytes@, self.pos as int);
            }
            self.skip_digits();
        }
        match self.slice(begin, self.pos) {
            Some(text) => Lexeme::Number(text),
            None => {
                self.emit_err(LexerError::InvalidNumber);
                Lexeme::Token(Token::Errno)
            },
        }
    }

    fn str_close(&self, from: usize, quote: u8) -> (r: Option<usize>)
        requires
            from <= self.bytes().len(),
        ensures
            match r {
                Some(q) => spec_str_close(self.bytes(), from as int, quote, false) == Some(q as int)
                    && from <= q < self.bytes().len(),
                None => spec_str_close(self.bytes(), from as int, quote, false) is None,
            },
    {
        let bytes = self.input.as_bytes();
        let mut i: usize = from;
        let mut escape = false;
        while i < bytes.len()
            invariant
                from <= i <= bytes@.len(),
                bytes@ == self.bytes(),
                spec_str_close(bytes@, from as int, quote, false) == spec_str_close(
                    bytes@,
                    i as int,
                    quote,
                    escape,
                ),
            decreases bytes@.len() - i,
        {
            let c = bytes[i];
            if escape {
                escape = false;
            } else if c == 92 {
                escape = true;
            } else if c == quote {
                return Some(i);
            }
            i += 1;
        }
        None
    }

    /// Scans the string literal whose opening quote stands at the
    /// position. A literal that does not close is the error
    /// `UnterminatedString`, its text is empty, and the rest of the text is
    /// consumed.
    pub fn str_literal(&mut self) -> (r: Token)
        requires
            old(self).wf(),
            old(self).pos < old(self).bytes().len(),
        ensures
            final(self).wf(),
            final(self).input == old(self).input,
            match spec_str_close(
                old(self).bytes(),
                old(self).pos + 1,
                old(self).bytes()[old(self).pos as int],
                false,
            ) {
                Some(q) => final(self).pos == q + 1 && if spec_sliceable(
                    old(self).bytes(),
                    old(self).pos + 1,
                    q,
                ) {
                    r@ == TokenView::StrLit(
                        decode_utf8(old(self).bytes().subrange(old(self).pos + 1, q)),
                    ) && final(self).errors == old(self).errors
                } else {
                    r@ == TokenView::Errno && final(self).errors@ == old(self).errors@.push(
                        LexerError::UnterminatedString,
                    )
                },
                None => final(self).pos == old(self).bytes().len() && r@ == TokenView::StrLit(
                    Seq::empty(),
                ) && final(self).errors@ == old(self).errors@.push(LexerError::UnterminatedString),
            },
    {
        let bytes = self.input.as_bytes();
        let quote = bytes[self.pos];
        let begin = self.pos + 1;
        match self.str_close(begin, quote) {
            Some(q) => {
                self.pos = q + 1;
                match self.slice(begin, q) {
                    Some(text) => Token::StrLit(text),
                    None => {
                        self.emit_err(LexerError::UnterminatedString);
                        Token::Errno
                    },
                }
            },
            None => {
                self.pos = bytes.len();
                self.emit_err(LexerError::UnterminatedString);
                Token::StrLit(String::new())
            },
        }
    }

    /// Scans the word at the position: a keyword or an identifier.
    pub fn ident_or_keyword(&mut self) -> (r: Token)
        requires
            old(self).wf(),
            old(self).pos < old(self).bytes().len(),
        ensures
            final(self).wf(),
            final(self).input == old(self).input,
            final(self).pos == spec_skip_ident(old(self).bytes(), old(self).pos as int),
            if spec_sliceable(old(self).bytes(), old(self).pos as int, final(self).pos as int) {
                r@ == spec_word(
                    decode_utf8(
                        old(self).bytes().subrange(old(self).pos as int, final(self).pos as int),
                    ),
                ) && final(self).errors == old(self).errors
            } else {
                r@ == TokenView::Errno && final(self).errors@ == old(self).errors@.push(
                    LexerError::UnexpectedCharacter(
                        old(self).bytes()[old(self).pos as int] as char,
                    ),
                )
            },
    {
        let begin = self.pos;
        let bytes = self.input.as_bytes();
        let first = bytes[begin];
        proof {
            lemma_skips(bytes@, self.pos as int);
        }
        self.skip_ident();
        match self.slice(begin, self.pos) {
            Some(text) => {
                match Self::is_keyword(&text) {
                    Some(kw) => kw,
                    None => Token::Ident(text),
                }
            },
            None => {
                self.emit_err(LexerError::UnexpectedCharacter(first as char));
                Token::Errno
            },
        }
    }

    /// The token of two bytes if the byte at the position is `second`,
    /// which is then consumed; else the token of one byte.
    pub fn double_char_op(&mut self, second: u8, double_token: Token, single_token: Token) -> (r:
        Token)
        requires
            old(self).wf(),
        ensures
            final(self).wf(),
            final(self).input == old(self).input,
            final(self).errors == old(self).errors,
            if old(self).pos < old(self).bytes().len() && old(self).bytes()[old(self).pos as int]
                == second {
                r == double_token && final(self).pos == old(self).pos + 1
            } else {
                r == single_token && final(self).pos == old(self).pos
            },
    {
        let bytes = self.input.as_bytes();
        if self.pos < bytes.len() && bytes[self.pos] == second {
            self.pos = self.pos + 1;
            double_token
        } else {
            single_token
        }
    }

    fn symbol(&mut self, c: u8) -> (r: Token)
        requires
            old(self).wf(),
            old(self).pos < old(self).bytes().len(),
            c == old(self).bytes()[old(self).pos as int],
        ensures
            final(self).wf(),
            final(self).input == old(self).input,
            final(self).pos == spec_symbol(old(self).bytes(), old(self).pos as int, c).end,
            LexemeView::Token(r@) == spec_symbol(old(self).bytes(), old(self).pos as int, c).lexeme,
            final(self).errors@ == match spec_symbol(
                old(self).bytes(),
                old(self).pos as int,
                c,
            ).error {
                Some(e) => old(self).errors@.push(e),
                None => old(self).errors@,
            },
    {
        let _len = self.input.as_bytes().len();
        self.pos = self.pos + 1;
        if c == 43 {
            Token::Plus
        } else if c == 45 {
            Token::Minus
        } else if c == 42 {
            Token::Asterisk
        } else if c == 47 {
            Token::Slash
        } else if c == 37 {
            Token::Percent
        } else if c == 94 {
            Token::Hat
        } else if c == 35 {
            Token::Hash
        } else if c == 46 {
            self.double_char_op(46, Token::Concat, Token::Dot)
        } else if c == 61 {
            self.double_char_op(61, Token::Eq, Token::Assign)
        } else if c == 126 {
            self.double_char_op(61, Token::Neq, Token::Errno)
        } else if c == 60 {
            self.double_char_op(61, Token::Leq, Token::Lt)
        } else if c == 62 {
            self.double_char_op(61, Token::Geq, Token::Gt)
        } else if c == 40 {
            Token::LParen
        } else if c == 41 {
            Token::RParen
        } else if c == 123 {
            Token::LBrace
        } else if c == 125 {
            Token::RBrace
        } else if c == 91 {
            Token::LBracket
        } else if c == 93 {
            Token::RBracket
        } else if c == 44 {
            Token::Comma
        } else if c == 59 {
            Token::Semicolon
        } else if c == 58 {
            Token::Colon
        } else if c == 64 {
            Token::At
        } else {
            self.emit_err(LexerError::UnexpectedCharacter(c as char));
            Token::Errno
        }
    }

    /// The next lexeme; see [`spec_scan`].
    pub fn next_token(&mut self) -> (r: Lexeme)
        requires
            old(self).wf(),
        ensures
            final(self).wf(),
            final(self).input == old(self).input,
            r@ == spec_scan(old(self).bytes(), old(self).pos as int).lexeme,
            final(self).pos == spec_scan(old(self).bytes(), old(self).pos as int).end,
            final(self).errors@ == match spec_scan(old(self).bytes(), old(self).pos as int).error {
                Some(e) => old(self).errors@.push(e),
                None => old(self).errors@,
            },
    {
        proof {
            lemma_skip_ws_and_comments(self.bytes(), self.pos as int);
        }
        self.skip_ws_and_comments();
        let bytes = self.input.as_bytes();
        if self.pos >= bytes.len() {
            return Lexeme::Token(Token::Eof);
        }
        let c = bytes[self.pos];
        if is_digit(c) {
            self.num_literal()
        } else if c == 34 || c == 39 {
            Lexeme::Token(self.str_literal())
        } else if is_alpha(c) || c == 95 {
            Lexeme::Token(self.ident_or_keyword())
        } else {
            Lexeme::Token(self.symbol(c))
        }
    }
}

} // verus!
