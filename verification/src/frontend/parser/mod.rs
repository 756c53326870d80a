//! The parser: from tokens to the syntax tree.
//!
//! The parser looks one token ahead. Binary operators are parsed by
//! precedence: assignment binds least, then `or`, `and`, the comparisons,
//! `..`, the additive and the multiplicative operators, and `^`; `..` and `^`
//! group to the right. An error is recorded with the index of the token at
//! which it was met, and parsing goes on where it can.

pub mod ast;

use vstd::prelude::*;
use crate::frontend::lexer::token::{spec_token_views, Token, TokenView};
use crate::frontend::parser::ast::{
    lemma_elif_views_push, lemma_expr_views_push, lemma_field_views_push, lemma_stmt_views_push,
    spec_elif_views, spec_expr_views, spec_field_views, spec_names, spec_stmt_views, BinOp,
    ExprView, Expression, LitView, Literal, Program, Statement, StmtView, UnOp,
};

verus! {

#[derive(Debug, Clone, Copy, PartialEq, Eq, Structural)]
pub enum ParserErrorType {
    UnexpectedToken,
    UnclosedBrackets,
    UnexpectedEof,
    InvalidExpression,
}

#[derive(Debug, Clone, PartialEq)]
pub struct ParserError {
    pub err_type: ParserErrorType,
    pub message: String,
    /// The index of the token at which the error was met.
    pub pos: usize,
}

pub struct Parser {
    pub tokens: Vec<Token>,
    pub pos: usize,
    pub errors: Vec<ParserError>,
}

/// An error of the parser as contracts see it.
pub struct ErrView {
    pub err_type: ParserErrorType,
    pub message: Seq<char>,
    pub pos: int,
}

/// The state of a parser as contracts see it: the index of the token
/// that it looks at, and the errors that it has met.
pub struct PState {
    pub pos: int,
    pub errors: Seq<ErrView>,
}

/// Where a sequence of statements ends.
#[derive(Debug, Clone, Copy, PartialEq, Eq, Structural)]
pub enum BlockEnd {
    /// Before `end`.
    End,
    /// Before `else`, `elseif` or `end`.
    Branch,
    /// Before `until`.
    Until,
    /// At the end of the tokens.
    Program,
}

impl PState {
    /// Whether the position is within the tokens or at their end.
    pub open spec fn ok(self, t: Seq<TokenView>) -> bool {
        0 <= self.pos <= t.len()
    }

    /// The state with one more error, met at the position.
    pub open spec fn err(self, err_type: ParserErrorType, message: Seq<char>) -> PState {
        PState {
            pos: self.pos,
            errors: self.errors.push(ErrView { err_type, message, pos: self.pos }),
        }
    }

    /// The state one token further, if there is a token.
    pub open spec fn step(self, t: Seq<TokenView>) -> PState {
        PState {
            pos: if 0 <= self.pos < t.len() {
                self.pos + 1
            } else {
                self.pos
            },
            errors: self.errors,
        }
    }

    /// The token at the position; `Eof` beyond the tokens.
    pub open spec fn peek(self, t: Seq<TokenView>) -> TokenView {
        if 0 <= self.pos < t.len() {
            t[self.pos]
        } else {
            TokenView::Eof
        }
    }

    /// The state after a token is expected: one further where the token is
    /// there, else with the error `UnexpectedToken`; and whether it was
    /// there.
    pub open spec fn expect(self, t: Seq<TokenView>, expected: TokenView) -> (PState, bool) {
        if self.peek(t) == expected {
            (self.step(t), true)
        } else {
            (self.err(ParserErrorType::UnexpectedToken, "Unexpected token"@), false)
        }
    }
}

/// The binary operator that a token stands for.
pub open spec fn spec_binop(token: TokenView) -> Option<BinOp> {
    match token {
        TokenView::Plus => Some(BinOp::Add),
        TokenView::Minus => Some(BinOp::Sub),
        TokenView::Asterisk => Some(BinOp::Mul),
        TokenView::Slash => Some(BinOp::Div),
        TokenView::Hat => Some(BinOp::Pow),
        TokenView::Concat => Some(BinOp::Concat),
        TokenView::Eq => Some(BinOp::Eq),
        TokenView::Neq => Some(BinOp::Neq),
        TokenView::Lt => Some(BinOp::Lt),
        TokenView::Gt => Some(BinOp::Gt),
        TokenView::Leq => Some(BinOp::Leq),
        TokenView::Geq => Some(BinOp::Geq),
        TokenView::KwAnd => Some(BinOp::And),
        TokenView::KwOr => Some(BinOp::Or),
        TokenView::Assign => Some(BinOp::Assign),
        _ => None,
    }
}

/// How tightly a binary operator binds.
pub open spec fn spec_precedence(op: BinOp) -> u8 {
    match op {
        BinOp::Assign => 0,
        BinOp::Or => 1,
        BinOp::And => 2,
        BinOp::Eq | BinOp::Neq | BinOp::Lt | BinOp::Gt | BinOp::Leq | BinOp::Geq => 3,
        BinOp::Concat => 4,
        BinOp::Add | BinOp::Sub => 5,
        BinOp::Mul | BinOp::Div => 6,
        BinOp::Pow => 7,
    }
}

/// Whether a binary operator groups to the right.
pub open spec fn spec_right_assoc(op: BinOp) -> bool {
    op == BinOp::Pow || op == BinOp::Concat
}

/// Whether the token ends a sequence of statements of the given kind.
pub open spec fn spec_block_stops(end: BlockEnd, token: TokenView) -> bool {
    match end {
        BlockEnd::End => token == TokenView::KwEnd,
        BlockEnd::Branch => token == TokenView::KwElse || token == TokenView::KwElseIf || token
            == TokenView::KwEnd,
        BlockEnd::Until => token == TokenView::KwUntil,
        BlockEnd::Program => token == TokenView::Eof,
    }
}

/// Whether no value of a `return` can start with the token.
pub open spec fn spec_ends_return(token: TokenView) -> bool {
    token == TokenView::KwEnd || token == TokenView::KwElse || token == TokenView::KwElseIf
        || token == TokenView::KwUntil || token == TokenView::Eof
}

/// A binary expression whose operators bind as tightly as `min_prec` at
/// least: a unary or primary expression, and what follows it.
pub open spec fn sp_binary(t: Seq<TokenView>, st: PState, min_prec: int) -> (
    PState,
    Option<ExprView>,
)
    decreases t.len() - st.pos, 5nat,
{
    if !st.ok(t) {
        (st, None)
    } else {
        let l = sp_unary(t, st);
        match l.1 {
            None => (
                l.0.err(
                    ParserErrorType::InvalidExpression,
                    "Failed to parse left-hand side expression"@,
                ),
                None,
            ),
            Some(left) => if l.0.pos >= st.pos && l.0.ok(t) {
                sp_binary_rest(t, l.0, left, min_prec)
            } else {
                (l.0, Some(left))
            },
        }
    }
}

/// The operators and right operands that follow a left operand.
pub open spec fn sp_binary_rest(t: Seq<TokenView>, st: PState, left: ExprView, min_prec: int) -> (
    PState,
    Option<ExprView>,
)
    decreases t.len() - st.pos, 1nat,
{
    if !st.ok(t) {
        (st, Some(left))
    } else {
        match spec_binop(st.peek(t)) {
            None => (st, Some(left)),
            Some(op) => {
                let prec = spec_precedence(op) as int;
                if prec < min_prec {
                    (st, Some(left))
                } else {
                    let st1 = st.step(t);
                    let next_min = if spec_right_assoc(op) {
                        prec
                    } else {
                        prec + 1
                    };
                    if st1.pos > st.pos {
                        let r = sp_binary(t, st1, next_min);
                        match r.1 {
                            None => (r.0, Some(left)),
                            Some(right) => {
                                let e = ExprView::BinOp {
                                    left: Box::new(left),
                                    operator: op,
                                    right: Box::new(right),
                                };
                                if r.0.pos > st.pos && r.0.ok(t) {
                                    sp_binary_rest(t, r.0, e, min_prec)
                                } else {
                                    (r.0, Some(e))
                                }
                            },
                        }
                    } else {
                        (st1, Some(left))
                    }
                }
            },
        }
    }
}

/// A unary or primary expression, with the calls, indexings and member
/// accesses that follow it.
pub open spec fn sp_unary(t: Seq<TokenView>, st: PState) -> (PState, Option<ExprView>)
    decreases t.len() - st.pos, 4nat,
{
    if !st.ok(t) {
        (st, None)
    } else {
        let st1 = st.step(t);
        match st.peek(t) {
            TokenView::Minus => sp_unop(t, st, UnOp::Neg),
            TokenView::Plus => sp_unop(t, st, UnOp::Pos),
            TokenView::KwNot => sp_unop(t, st, UnOp::Not),
            TokenView::Ident(name) => sp_postfix(t, st1, ExprView::Identifier(name)),
            TokenView::NumLit(n) => sp_postfix(t, st1, ExprView::Literal(LitView::Number(n))),
            TokenView::StrLit(s) => sp_postfix(t, st1, ExprView::Literal(LitView::String(s))),
            TokenView::KwTrue => sp_postfix(t, st1, ExprView::Literal(LitView::Boolean(true))),
            TokenView::KwFalse => sp_postfix(t, st1, ExprView::Literal(LitView::Boolean(false))),
            TokenView::KwNil => sp_postfix(t, st1, ExprView::Literal(LitView::Nil)),
            TokenView::LParen => if st1.pos > st.pos {
                let e = sp_binary(t, st1, 0);
                match e.1 {
                    None => (e.0, None),
                    Some(x) => {
                        let ex = e.0.expect(t, TokenView::RParen);
                        if !ex.1 {
                            (ex.0, None)
                        } else if ex.0.pos > st.pos && ex.0.ok(t) {
                            sp_postfix(t, ex.0, x)
                        } else {
                            (ex.0, Some(x))
                        }
                    },
                }
            } else {
                (st1, None)
            },
            TokenView::KwFunction => {
                let f = sp_function(t, st1);
                match f.1 {
                    None => (f.0, None),
                    Some(lit) => if st1.pos > st.pos && f.0.pos > st.pos && f.0.ok(t) {
                        sp_postfix(
                            t,
                            f.0,
                            ExprView::Literal(
                                LitView::Function { params: lit.0, body: lit.1, name: None },
                            ),
                        )
                    } else {
                        (
                            f.0,
                            Some(
                                ExprView::Literal(
                                    LitView::Function { params: lit.0, body: lit.1, name: None },
                                ),
                            ),
                        )
                    },
                }
            },
            TokenView::LBrace => sp_table_then(t, st, st),
            TokenView::At => sp_table_then(t, st, st1),
            _ => (st.err(ParserErrorType::InvalidExpression, "Unexpected token in expression"@), None),
        }
    }
}

/// A table constructor whose opening brace is expected at `open`, and
/// what follows it.
pub open spec fn sp_table_then(t: Seq<TokenView>, st: PState, open: PState) -> (
    PState,
    Option<ExprView>,
)
    decreases t.len() - st.pos, 3nat,
{
    let braced = open.expect(t, TokenView::LBrace).0;
    if !st.ok(t) || braced.pos <= st.pos || !braced.ok(t) {
        (braced, None)
    } else {
        let fields = if braced.peek(t) == TokenView::RBrace {
            (braced, Some(Seq::<(Option<ExprView>, ExprView)>::empty()))
        } else {
            sp_fields(t, braced, Seq::empty())
        };
        match fields.1 {
            None => (fields.0, None),
            Some(fs) => {
                let closed = fields.0.expect(t, TokenView::RBrace).0;
                if closed.pos > st.pos && closed.ok(t) {
                    sp_postfix(t, closed, ExprView::TableCtor { fields: fs })
                } else {
                    (closed, Some(ExprView::TableCtor { fields: fs }))
                }
            },
        }
    }
}

/// A unary operator and its operand.
pub open spec fn sp_unop(t: Seq<TokenView>, st: PState, op: UnOp) -> (PState, Option<ExprView>)
    decreases t.len() - st.pos, 3nat,
{
    let st1 = st.step(t);
    if st.ok(t) && st1.pos > st.pos {
        let o = sp_unary(t, st1);
        match o.1 {
            None => (o.0, None),
            Some(operand) => {
                let e = ExprView::UnOp { operator: op, operand: Box::new(operand) };
                if o.0.pos > st.pos && o.0.ok(t) {
                    sp_postfix(t, o.0, e)
                } else {
                    (o.0, Some(e))
                }
            },
        }
    } else {
        (st1, None)
    }
}

/// The calls, indexings and member accesses that follow an expression.
pub open spec fn sp_postfix(t: Seq<TokenView>, st: PState, e: ExprView) -> (PState, Option<ExprView>)
    decreases t.len() - st.pos, 2nat,
{
    if !st.ok(t) {
        (st, Some(e))
    } else {
        let st1 = st.step(t);
        match st.peek(t) {
            TokenView::LParen => if st1.pos > st.pos {
                let args = if st1.peek(t) == TokenView::RParen {
                    (st1, Some(Seq::<ExprView>::empty()))
                } else {
                    sp_args(t, st1, Seq::empty())
                };
                match args.1 {
                    None => (args.0, None),
                    Some(a) => {
                        let ex = args.0.expect(t, TokenView::RParen);
                        if !ex.1 {
                            (
                                ex.0.err(
                                    ParserErrorType::UnclosedBrackets,
                                    "Expected ')' after function call arguments"@,
                                ),
                                None,
                            )
                        } else if ex.0.pos > st.pos && ex.0.ok(t) {
                            sp_postfix(
                                t,
                                ex.0,
                                ExprView::FnCall { callee: Box::new(e), arguments: a },
                            )
                        } else {
                            (ex.0, Some(ExprView::FnCall { callee: Box::new(e), arguments: a }))
                        }
                    },
                }
            } else {
                (st1, Some(e))
            },
            TokenView::LBracket => if st1.pos > st.pos {
                let i = sp_binary(t, st1, 0);
                match i.1 {
                    None => (
                        i.0.err(
                            ParserErrorType::InvalidExpression,
                            "Index expression requires a valid expression"@,
                        ),
                        None,
                    ),
                    Some(index) => {
                        let ex = i.0.expect(t, TokenView::RBracket);
                        if !ex.1 {
                            (
                                ex.0.err(
                                    ParserErrorType::UnclosedBrackets,
                                    "Expected ']' after index expression"@,
                                ),
                                None,
                            )
                        } else if ex.0.pos > st.pos && ex.0.ok(t) {
                            sp_postfix(
                                t,
                                ex.0,
                                ExprView::IndexOf {
                                    collection: Box::new(e),
                                    index: Box::new(index),
                                },
                            )
                        } else {
                            (
                                ex.0,
                                Some(
                                    ExprView::IndexOf {
                                        collection: Box::new(e),
                                        index: Box::new(index),
                                    },
                                ),
                            )
                        }
                    },
                }
            } else {
                (st1, Some(e))
            },
            TokenView::Dot => match st1.peek(t) {
                TokenView::Ident(member) => {
                    let st2 = st1.step(t);
                    if st2.pos > st.pos {
                        sp_postfix(
                            t,
                            st2,
                            ExprView::MemberAccess { collection: Box::new(e), member },
                        )
                    } else {
                        (st2, Some(ExprView::MemberAccess { collection: Box::new(e), member }))
                    }
                },
                _ => (
                    st1.err(
                        ParserErrorType::UnexpectedToken,
                        "Expected member name after '.'"@,
                    ),
                    None,
                ),
            },
            _ => (st, Some(e)),
        }
    }
}

/// The arguments of a call, separated by commas.
pub open spec fn sp_args(t: Seq<TokenView>, st: PState, acc: Seq<ExprView>) -> (
    PState,
    Option<Seq<ExprView>>,
)
    decreases t.len() - st.pos, 6nat,
{
    if !st.ok(t) {
        (st, None)
    } else {
        let a = sp_binary(t, st, 0);
        match a.1 {
            None => (
                a.0.err(
                    ParserErrorType::InvalidExpression,
                    "Function call argument requires a valid expression"@,
                ),
                None,
            ),
            Some(x) => if a.0.peek(t) == TokenView::Comma {
                let st2 = a.0.step(t);
                if st2.pos > st.pos {
                    sp_args(t, st2, acc.push(x))
                } else {
                    (st2, Some(acc.push(x)))
                }
            } else {
                (a.0, Some(acc.push(x)))
            },
        }
    }
}

/// The fields of a table constructor, separated by commas: `[key] =
/// value`, `name = value`, where the name is the key as a string, or a value
/// alone.
pub open spec fn sp_fields(
    t: Seq<TokenView>,
    st: PState,
    acc: Seq<(Option<ExprView>, ExprView)>,
) -> (PState, Option<Seq<(Option<ExprView>, ExprView)>>)
    decreases t.len() - st.pos, 6nat,
{
    if !st.ok(t) {
        (st, None)
    } else {
        let st1 = st.step(t);
        let key: (PState, Option<Option<ExprView>>) = match st.peek(t) {
            TokenView::LBracket => if st1.pos > st.pos {
                let k = sp_binary(t, st1, 0);
                match k.1 {
                    None => (
                        k.0.err(
                            ParserErrorType::InvalidExpression,
                            "Table constructor key requires a valid expression"@,
                        ),
                        None,
                    ),
                    Some(x) => {
                        let c = k.0.expect(t, TokenView::RBracket);
                        if !c.1 {
                            (
                                c.0.err(
                                    ParserErrorType::UnclosedBrackets,
                                    "Expected ']' after table constructor key"@,
                                ),
                                None,
                            )
                        } else {
                            let a = c.0.expect(t, TokenView::Assign);
                            if !a.1 {
                                (
                                    a.0.err(
                                        ParserErrorType::UnexpectedToken,
                                        "Expected '=' after table constructor key"@,
                                    ),
                                    None,
                                )
                            } else {
                                (a.0, Some(Some(x)))
                            }
                        }
                    },
                }
            } else {
                (st1, None)
            },
            TokenView::Ident(name) => if st1.peek(t) == TokenView::Assign {
                (st1.step(t), Some(Some(ExprView::Literal(LitView::String(name)))))
            } else {
                (st, Some(None))
            },
            _ => (st, Some(None)),
        };
        match key.1 {
            None => (key.0, None),
            Some(k) => if key.0.pos >= st.pos && key.0.ok(t) {
                let v = sp_binary(t, key.0, 0);
                match v.1 {
                    None => (
                        v.0.err(
                            ParserErrorType::InvalidExpression,
                            "Table constructor value requires a valid expression"@,
                        ),
                        None,
                    ),
                    Some(x) => if v.0.peek(t) == TokenView::Comma {
                        let st2 = v.0.step(t);
                        if st2.pos > st.pos {
                            sp_fields(t, st2, acc.push((k, x)))
                        } else {
                            (st2, Some(acc.push((k, x))))
                        }
                    } else {
                        (v.0, Some(acc.push((k, x))))
                    },
                }
            } else {
                (key.0, None)
            },
        }
    }
}

/// The names of a list, separated by commas. A token that is no name is
/// the error `UnexpectedToken`.
pub open spec fn sp_names(t: Seq<TokenView>, st: PState, acc: Seq<Seq<char>>) -> (
    PState,
    Option<Seq<Seq<char>>>,
)
    decreases t.len() - st.pos,
{
    if !st.ok(t) {
        (st, None)
    } else {
        match st.peek(t) {
            TokenView::Ident(name) => {
                let st1 = st.step(t);
                if st1.peek(t) == TokenView::Comma {
                    let st2 = st1.step(t);
                    if st2.pos > st.pos {
                        sp_names(t, st2, acc.push(name))
                    } else {
                        (st2, Some(acc.push(name)))
                    }
                } else {
                    (st1, Some(acc.push(name)))
                }
            },
            _ => (st.err(ParserErrorType::UnexpectedToken, "Expected identifier"@), None),
        }
    }
}

/// The parameters and the body of a function, after the word `function`
/// and the name, if there is one.
pub open spec fn sp_function(t: Seq<TokenView>, st: PState) -> (
    PState,
    Option<(Seq<Seq<char>>, Seq<StmtView>)>,
)
    decreases t.len() - st.pos, 9nat,
{
    if !st.ok(t) {
        (st, None)
    } else {
        let opened = st.expect(t, TokenView::LParen).0;
        let params = if opened.peek(t) == TokenView::RParen {
            (opened, Some(Seq::<Seq<char>>::empty()))
        } else {
            sp_names(t, opened, Seq::empty())
        };
        match params.1 {
            None => (params.0, None),
            Some(ps) => {
                let closed = params.0.expect(t, TokenView::RParen).0;
                if closed.pos >= st.pos && closed.ok(t) {
                    let body = sp_block(t, closed, Seq::empty(), BlockEnd::End);
                    (body.0.expect(t, TokenView::KwEnd).0, Some((ps, body.1)))
                } else {
                    (closed, None)
                }
            },
        }
    }
}

/// Statements up to the end of their sequence, or up to the first that
/// cannot be parsed.
pub open spec fn sp_block(t: Seq<TokenView>, st: PState, acc: Seq<StmtView>, end: BlockEnd) -> (
    PState,
    Seq<StmtView>,
)
    decreases t.len() - st.pos, 8nat,
{
    if !st.ok(t) || spec_block_stops(end, st.peek(t)) {
        (st, acc)
    } else {
        let s = sp_statement(t, st);
        match s.1 {
            None => (s.0, acc),
            Some(stmt) => if s.0.pos > st.pos && s.0.ok(t) {
                sp_block(t, s.0, acc.push(stmt), end)
            } else {
                (s.0, acc.push(stmt))
            },
        }
    }
}

/// Expressions separated by commas; the first that cannot be parsed ends
/// the list, or makes the whole list fail where `strict` holds.
pub open spec fn sp_values(t: Seq<TokenView>, st: PState, acc: Seq<ExprView>, strict: bool) -> (
    PState,
    Option<Seq<ExprView>>,
)
    decreases t.len() - st.pos, 6nat,
{
    if !st.ok(t) {
        (st, Some(acc))
    } else {
        let e = sp_binary(t, st, 0);
        match e.1 {
            None => if strict {
                (e.0, None)
            } else {
                (e.0, Some(acc))
            },
            Some(x) => if e.0.peek(t) == TokenView::Comma {
                let st2 = e.0.step(t);
                if st2.pos > st.pos {
                    sp_values(t, st2, acc.push(x), strict)
                } else {
                    (st2, Some(acc.push(x)))
                }
            } else {
                (e.0, Some(acc.push(x)))
            },
        }
    }
}

/// The `elseif` branches of an `if` statement.
pub open spec fn sp_elifs(t: Seq<TokenView>, st: PState, acc: Seq<(ExprView, Seq<StmtView>)>) -> (
    PState,
    Option<Seq<(ExprView, Seq<StmtView>)>>,
)
    decreases t.len() - st.pos, 9nat,
{
    if !st.ok(t) || st.peek(t) != TokenView::KwElseIf {
        (st, Some(acc))
    } else {
        let st1 = st.step(t);
        if st1.pos > st.pos {
            let c = sp_binary(t, st1, 0);
            match c.1 {
                None => (c.0, None),
                Some(cond) => {
                    let then = c.0.expect(t, TokenView::KwThen).0;
                    if then.pos > st.pos && then.ok(t) {
                        let body = sp_block(t, then, Seq::empty(), BlockEnd::Branch);
                        if body.0.pos > st.pos && body.0.ok(t) {
                            sp_elifs(t, body.0, acc.push((cond, body.1)))
                        } else {
                            (body.0, Some(acc.push((cond, body.1))))
                        }
                    } else {
                        (then, None)
                    }
                },
            }
        } else {
            (st1, None)
        }
    }
}

/// A statement: by the token that it starts with, a declaration, an `if`,
/// a `while`, a `repeat`, a function declaration or a `return`; else an
/// expression.
pub open spec fn sp_statement(t: Seq<TokenView>, st: PState) -> (PState, Option<StmtView>)
    decreases t.len() - st.pos, 7nat,
{
    if !st.ok(t) {
        (st, None)
    } else {
        let st1 = st.step(t);
        match st.peek(t) {
            TokenView::KwLocal => if st1.pos > st.pos {
                if st1.peek(t) == TokenView::KwFunction {
                    sp_function_decl(t, st1.step(t), true)
                } else {
                    let names = sp_names(t, st1, Seq::empty());
                    match names.1 {
                        None => (names.0, None),
                        Some(ns) => {
                            let a = names.0.expect(t, TokenView::Assign).0;
                            if a.pos > st.pos && a.ok(t) {
                                let values = sp_values(t, a, Seq::empty(), true);
                                match values.1 {
                                    None => (values.0, None),
                                    Some(vs) => (
                                        values.0,
                                        Some(StmtView::Declaration { names: ns, values: vs }),
                                    ),
                                }
                            } else {
                                (a, None)
                            }
                        },
                    }
                }
            } else {
                (st1, None)
            },
            TokenView::KwIf => if st1.pos > st.pos {
                let c = sp_binary(t, st1, 0);
                match c.1 {
                    None => (c.0, None),
                    Some(cond) => {
                        let then = c.0.expect(t, TokenView::KwThen).0;
                        if then.pos > st.pos && then.ok(t) {
                            let body = sp_block(t, then, Seq::empty(), BlockEnd::Branch);
                            if body.0.pos > st.pos && body.0.ok(t) {
                                let elifs = sp_elifs(t, body.0, Seq::empty());
                                match elifs.1 {
                                    None => (elifs.0, None),
                                    Some(es) => {
                                        let els = if elifs.0.peek(t) == TokenView::KwElse
                                            && elifs.0.pos > st.pos && elifs.0.ok(t) {
                                            let b = sp_block(
                                                t,
                                                elifs.0.step(t),
                                                Seq::empty(),
                                                BlockEnd::End,
                                            );
                                            (b.0, Some(b.1))
                                        } else {
                                            (elifs.0, None)
                                        };
                                        (
                                            els.0.expect(t, TokenView::KwEnd).0,
                                            Some(
                                                StmtView::IfStmt {
                                                    condition: Box::new(cond),
                                                    then_branch: body.1,
                                                    elif_branches: es,
                                                    else_branch: els.1,
                                                },
                                            ),
                                        )
                                    },
                                }
                            } else {
                                (body.0, None)
                            }
                        } else {
                            (then, None)
                        }
                    },
                }
            } else {
                (st1, None)
            },
            TokenView::KwWhile => if st1.pos > st.pos {
                let c = sp_binary(t, st1, 0);
                match c.1 {
                    None => (c.0, None),
                    Some(cond) => {
                        let d = c.0.expect(t, TokenView::KwDo).0;
                        if d.pos > st.pos && d.ok(t) {
                            let body = sp_block(t, d, Seq::empty(), BlockEnd::End);
                            (
                                body.0.expect(t, TokenView::KwEnd).0,
                                Some(
                                    StmtView::WhileStmt {
                                        condition: Box::new(cond),
                                        body: body.1,
                                    },
                                ),
                            )
                        } else {
                            (d, None)
                        }
                    },
                }
            } else {
                (st1, None)
            },
            TokenView::KwRepeat => if st1.pos > st.pos {
                let body = sp_block(t, st1, Seq::empty(), BlockEnd::Until);
                let u = body.0.expect(t, TokenView::KwUntil).0;
                if u.pos > st.pos && u.ok(t) {
                    let c = sp_binary(t, u, 0);
                    match c.1 {
                        None => (c.0, None),
                        Some(cond) => (
                            c.0,
                            Some(StmtView::RepeatStmt { body: body.1, condition: Box::new(cond) }),
                        ),
                    }
                } else {
                    (u, None)
                }
            } else {
                (st1, None)
            },
            TokenView::KwFunction => sp_function_decl(t, st1, false),
            TokenView::KwReturn => if st1.pos > st.pos {
                if spec_ends_return(st1.peek(t)) {
                    (st1, Some(StmtView::ReturnStmt { values: Seq::empty() }))
                } else {
                    let values = sp_values(t, st1, Seq::empty(), false);
                    match values.1 {
                        None => (values.0, None),
                        Some(vs) => (values.0, Some(StmtView::ReturnStmt { values: vs })),
                    }
                }
            } else {
                (st1, None)
            },
            _ => {
                let e = sp_binary(t, st, 0);
                match e.1 {
                    None => (e.0, None),
                    Some(x) => (e.0, Some(StmtView::ExprStatement(Box::new(x)))),
                }
            },
        }
    }
}

/// A function declaration after the word `function`: the name, the
/// parameters and the body. A local one is a declaration of the name; any
/// other is an assignment to the name.
pub open spec fn sp_function_decl(t: Seq<TokenView>, st: PState, is_local: bool) -> (
    PState,
    Option<StmtView>,
)
    decreases t.len() - st.pos, 10nat,
{
    if !st.ok(t) {
        (st, None)
    } else {
        match st.peek(t) {
            TokenView::Ident(name) => {
                let st1 = st.step(t);
                if st1.pos > st.pos {
                    let f = sp_function(t, st1);
                    match f.1 {
                        None => (f.0, None),
                        Some(lit) => {
                            let func = ExprView::Literal(
                                LitView::Function { params: lit.0, body: lit.1, name: Some(name) },
                            );
                            (
                                f.0,
                                Some(
                                    if is_local {
                                        StmtView::Declaration {
                                            names: seq![name],
                                            values: seq![func],
                                        }
                                    } else {
                                        StmtView::ExprStatement(
                                            Box::new(
                                                ExprView::BinOp {
                                                    left: Box::new(ExprView::Identifier(name)),
                                                    operator: BinOp::Assign,
                                                    right: Box::new(func),
                                                },
                                            ),
                                        )
                                    },
                                ),
                            )
                        },
                    }
                } else {
                    (st1, None)
                }
            },
            _ => (
                st.err(ParserErrorType::UnexpectedToken, "Expected function name identifier"@),
                None,
            ),
        }
    }
}

/// The statements of a program.
pub open spec fn sp_program(t: Seq<TokenView>, st: PState) -> (PState, Seq<StmtView>) {
    sp_block(t, st, Seq::empty(), BlockEnd::Program)
}

impl View for ParserError {
    type V = ErrView;

    open spec fn view(&self) -> ErrView {
        ErrView { err_type: self.err_type, message: self.message@, pos: self.pos as int }
    }
}

/// The errors as contracts see them.
pub open spec fn spec_err_views(errors: Seq<ParserError>) -> Seq<ErrView> {
    errors.map_values(|e: ParserError| e@)
}

/// An expression that may be missing, as contracts see it.
pub open spec fn spec_opt_expr(e: Option<Expression>) -> Option<ExprView> {
    match e {
        Some(x) => Some(x@),
        None => None,
    }
}

/// A statement that may be missing, as contracts see it.
pub open spec fn spec_opt_stmt(s: Option<Statement>) -> Option<StmtView> {
    match s {
        Some(x) => Some(x@),
        None => None,
    }
}

impl Parser {
    /// The tokens as contracts see them.
    pub open spec fn tv(&self) -> Seq<TokenView> {
        spec_token_views(self.tokens@)
    }

    /// The state of the parser as contracts see it.
    pub open spec fn state(&self) -> PState {
        PState { pos: self.pos as int, errors: spec_err_views(self.errors@) }
    }

    /// The parser's invariant: the position is within the tokens or at
    /// their end.
    pub open spec fn wf(&self) -> bool {
        self.pos <= self.tokens@.len()
    }

    pub fn new(tokens: Vec<Token>) -> (r: Parser)
        ensures
            r.wf(),
            r.tokens == tokens,
            r.pos == 0,
            r.errors@.len() == 0,
    {
        Parser { tokens, pos: 0, errors: Vec::new() }
    }

    /// The errors that the parser has met so far.
    pub fn get_err(&self) -> (r: &Vec<ParserError>)
        ensures
            *r == self.errors,
    {
        &self.errors
    }

    /// The index of the token that the parser looks at.
    pub fn get_pos(&self) -> (r: usize)
        ensures
            r == self.pos,
    {
        self.pos
    }

    /// Records an error, met at the position.
    pub fn emit_err(&mut self, err_type: ParserErrorType, message: &str)
        ensures
            final(self).state() == old(self).state().err(err_type, message@),
            final(self).tokens == old(self).tokens,
            final(self).pos == old(self).pos,
    {
        let e = ParserError { err_type, message: String::from_str(message), pos: self.pos };
        self.errors.push(e);
        proof {
            assert(spec_err_views(self.errors@) =~= spec_err_views(old(self).errors@).push(e@));
        }
    }

    /// Goes one token further, if there is a token.
    pub fn advance_tokens(&mut self)
        ensures
            final(self).state() == old(self).state().step(old(self).tv()),
            final(self).tokens == old(self).tokens,
            final(self).errors == old(self).errors,
            old(self).wf() ==> final(self).wf(),
    {
        if self.pos < self.tokens.len() {
            self.pos = self.pos + 1;
        }
    }

    /// A copy of the token at the position; `Eof` beyond the tokens.
    pub fn peek_token(&self) -> (r: Token)
        ensures
            r@ == self.state().peek(self.tv()),
    {
        if self.pos < self.tokens.len() {
            self.tokens[self.pos].dup()
        } else {
            Token::Eof
        }
    }

    /// A copy of the token before the position; `Eof` at the start.
    pub fn current_token(&self) -> (r: Token)
        ensures
            r@ == if 0 < self.pos <= self.tokens@.len() {
                self.tv()[self.pos - 1]
            } else {
                TokenView::Eof
            },
    {
        if 0 < self.pos && self.pos <= self.tokens.len() {
            self.tokens[self.pos - 1].dup()
        } else {
            Token::Eof
        }
    }

    /// Whether the token at the position is the given one.
    pub fn peek_is(&self, token: &Token) -> (r: bool)
        ensures
            r == (self.state().peek(self.tv()) == token@),
    {
        if self.pos < self.tokens.len() {
            self.tokens[self.pos].same(token)
        } else {
            token.same(&Token::Eof)
        }
    }

    /// Expects a token; see [`PState::expect`].
    pub fn expect(&mut self, expected: Token) -> (r: bool)
        ensures
            (final(self).state(), r) == old(self).state().expect(old(self).tv(), expected@),
            final(self).tokens == old(self).tokens,
            old(self).wf() ==> final(self).wf(),
    {
        if self.peek_is(&expected) {
            self.advance_tokens();
            true
        } else {
            self.emit_err(ParserErrorType::UnexpectedToken, "Unexpected token");
            false
        }
    }

    /// How tightly a binary operator binds.
    pub fn binop_precedence(op: BinOp) -> (r: u8)
        ensures
            r == spec_precedence(op),
    {
        match op {
            BinOp::Assign => 0,
            BinOp::Or => 1,
            BinOp::And => 2,
            BinOp::Eq | BinOp::Neq | BinOp::Lt | BinOp::Gt | BinOp::Leq | BinOp::Geq => 3,
            BinOp::Concat => 4,
            BinOp::Add | BinOp::Sub => 5,
            BinOp::Mul | BinOp::Div => 6,
            BinOp::Pow => 7,
        }
    }

    /// Whether a binary operator groups to the right.
    pub fn is_binop_right_assoc(op: BinOp) -> (r: bool)
        ensures
            r == spec_right_assoc(op),
    {
        match op {
            BinOp::Pow | BinOp::Concat => true,
            _ => false,
        }
    }

    /// The binary operator that a token stands for.
    pub fn token_to_ast_binop(token: &Token) -> (r: Option<BinOp>)
        ensures
            r == spec_binop(token@),
    {
        match token {
            Token::Plus => Some(BinOp::Add),
            Token::Minus => Some(BinOp::Sub),
            Token::Asterisk => Some(BinOp::Mul),
            Token::Slash => Some(BinOp::Div),
            Token::Hat => Some(BinOp::Pow),
            Token::Concat => Some(BinOp::Concat),
            Token::Eq => Some(BinOp::Eq),
            Token::Neq => Some(BinOp::Neq),
            Token::Lt => Some(BinOp::Lt),
            Token::Gt => Some(BinOp::Gt),
            Token::Leq => Some(BinOp::Leq),
            Token::Geq => Some(BinOp::Geq),
            Token::KwAnd => Some(BinOp::And),
            Token::KwOr => Some(BinOp::Or),
            Token::Assign => Some(BinOp::Assign),
            _ => None,
        }
    }

    fn peek_binop(&self) -> (r: Option<BinOp>)
        ensures
            r == spec_binop(self.state().peek(self.tv())),
    {
        if self.pos < self.tokens.len() {
            Self::token_to_ast_binop(&self.tokens[self.pos])
        } else {
            None
        }
    }

    fn block_stops(&self, end: BlockEnd) -> (r: bool)
        ensures
            r == spec_block_stops(end, self.state().peek(self.tv())),
    {
        match end {
            BlockEnd::End => self.peek_is(&Token::KwEnd),
            BlockEnd::Branch => self.peek_is(&Token::KwElse) || self.peek_is(&Token::KwElseIf)
                || self.peek_is(&Token::KwEnd),
            BlockEnd::Until => self.peek_is(&Token::KwUntil),
            BlockEnd::Program => self.peek_is(&Token::Eof),
        }
    }

    fn ends_return(&self) -> (r: bool)
        ensures
            r == spec_ends_return(self.state().peek(self.tv())),
    {
        self.peek_is(&Token::KwEnd) || self.peek_is(&Token::KwElse) || self.peek_is(
            &Token::KwElseIf,
        ) || self.peek_is(&Token::KwUntil) || self.peek_is(&Token::Eof)
    }

    /// Parses a binary expression whose operators bind as tightly as
    /// `min_prec` at least; see [`sp_binary`].
    pub fn parse_binary_expression_impl(&mut self, min_prec: u8) -> (r: Option<Expression>)
        requires
            old(self).wf(),
        ensures
            final(self).wf(),
            final(self).tokens == old(self).tokens,
            (final(self).state(), spec_opt_expr(r)) == sp_binary(
                old(self).tv(),
                old(self).state(),
                min_prec as int,
            ),
        decreases old(self).tokens@.len() - old(self).pos, 5nat,
    {
        let ghost t = self.tv();
        let start = self.pos;
        let mut left = match self.parse_unary_or_primary_expression() {
            Some(l) => l,
            None => {
                self.emit_err(
                    ParserErrorType::InvalidExpression,
                    "Failed to parse left-hand side expression",
                );
                return None;
            },
        };
        if self.pos < start {
            return Some(left);
        }
        loop
            invariant
                self.wf(),
                self.tokens == old(self).tokens,
                t == self.tv(),
                start == old(self).pos,
                self.pos >= start,
                sp_binary(t, old(self).state(), min_prec as int) == sp_binary_rest(
                    t,
                    self.state(),
                    left@,
                    min_prec as int,
                ),
            decreases self.tokens@.len() - self.pos,
        {
            let here = self.pos;
            let op = match self.peek_binop() {
                Some(op) => op,
                None => {
                    return Some(left);
                },
            };
            let prec = Self::binop_precedence(op);
            if prec < min_prec {
                return Some(left);
            }
            self.advance_tokens();
            let next_min = if Self::is_binop_right_assoc(op) {
                prec
            } else {
                prec + 1
            };
            if self.pos <= here {
                return Some(left);
            }
            let right = match self.parse_binary_expression_impl(next_min) {
                Some(r) => r,
                None => {
                    return Some(left);
                },
            };
            left = Expression::BinOp {
                left: Box::new(left),
                operator: op,
                right: Box::new(right),
            };
            if self.pos <= here {
                return Some(left);
            }
        }
    }

    /// Parses a binary expression.
    pub fn parse_binary_expression(&mut self) -> (r: Option<Expression>)
        requires
            old(self).wf(),
        ensures
            final(self).wf(),
            final(self).tokens == old(self).tokens,
            (final(self).state(), spec_opt_expr(r)) == sp_binary(
                old(self).tv(),
                old(self).state(),
                0,
            ),
    {
        self.parse_binary_expression_impl(0)
    }

    /// Parses an expression.
    pub fn parse_expression(&mut self) -> (r: Option<Expression>)
        requires
            old(self).wf(),
        ensures
            final(self).wf(),
            final(self).tokens == old(self).tokens,
            (final(self).state(), spec_opt_expr(r)) == sp_binary(
                old(self).tv(),
                old(self).state(),
                0,
            ),
    {
        self.parse_binary_expression()
    }
}

/// The parameters and the body of a function as contracts see them.
pub open spec fn spec_opt_function(f: Option<(Vec<String>, Vec<Statement>)>) -> Option<
    (Seq<Seq<char>>, Seq<StmtView>),
> {
    match f {
        Some(x) => Some((spec_names(x.0@), spec_stmt_views(x.1@, x.1@.len() as int))),
        None => None,
    }
}

/// Expressions that may be missing, as contracts see them.
pub open spec fn spec_opt_exprs(es: Option<Vec<Expression>>) -> Option<Seq<ExprView>> {
    match es {
        Some(x) => Some(spec_expr_views(x@, x@.len() as int)),
        None => None,
    }
}

/// Fields that may be missing, as contracts see them.
pub open spec fn spec_opt_fields(fs: Option<Vec<(Option<Expression>, Expression)>>) -> Option<
    Seq<(Option<ExprView>, ExprView)>,
> {
    match fs {
        Some(x) => Some(spec_field_views(x@, x@.len() as int)),
        None => None,
    }
}

/// Names that may be missing, as contracts see them.
pub open spec fn spec_opt_names(ns: Option<Vec<String>>) -> Option<Seq<Seq<char>>> {
    match ns {
        Some(x) => Some(spec_names(x@)),
        None => None,
    }
}

/// `elseif` branches that may be missing, as contracts see them.
pub open spec fn spec_opt_elifs(bs: Option<Vec<(Expression, Vec<Statement>)>>) -> Option<
    Seq<(ExprView, Seq<StmtView>)>,
> {
    match bs {
        Some(x) => Some(spec_elif_views(x@, x@.len() as int)),
        None => None,
    }
}

impl Parser {
    fn parse_unop(&mut self, op: UnOp) -> (r: Option<Expression>)
        requires
            old(self).wf(),
        ensures
            final(self).wf(),
            final(self).tokens == old(self).tokens,
            (final(self).state(), spec_opt_expr(r)) == sp_unop(
                old(self).tv(),
                old(self).state(),
                op,
            ),
        decreases old(self).tokens@.len() - old(self).pos, 3nat,
    {
        let start = self.pos;
        self.advance_tokens();
        if self.pos <= start {
            return None;
        }
        let operand = match self.parse_unary_or_primary_expression() {
            Some(o) => o,
            None => {
                return None;
            },
        };
        let e = Expression::UnOp { operator: op, operand: Box::new(operand) };
        if self.pos > start {
            self.parse_postfix(e)
        } else {
            Some(e)
        }
    }

    /// Parses a unary or primary expression, with the calls, indexings
    /// and member accesses that follow it; see [`sp_unary`].
    pub fn parse_unary_or_primary_expression(&mut self) -> (r: Option<Expression>)
        requires
            old(self).wf(),
        ensures
            final(self).wf(),
            final(self).tokens == old(self).tokens,
            (final(self).state(), spec_opt_expr(r)) == sp_unary(old(self).tv(), old(self).state()),
        decreases old(self).tokens@.len() - old(self).pos, 4nat,
    {
        let start = self.pos;
        let token = self.peek_token();
        match token {
            Token::Minus => self.parse_unop(UnOp::Neg),
            Token::Plus => self.parse_unop(UnOp::Pos),
            Token::KwNot => self.parse_unop(UnOp::Not),
            Token::Ident(name) => {
                self.advance_tokens();
                self.parse_postfix(Expression::Identifier(name))
            },
            Token::NumLit(n) => {
                self.advance_tokens();
                self.parse_postfix(Expression::Literal(Literal::Number(n)))
            },
            Token::StrLit(text) => {
                self.advance_tokens();
                self.parse_postfix(Expression::Literal(Literal::String(text)))
            },
            Token::KwTrue => {
                self.advance_tokens();
                self.parse_postfix(Expression::Literal(Literal::Boolean(true)))
            },
            Token::KwFalse => {
                self.advance_tokens();
                self.parse_postfix(Expression::Literal(Literal::Boolean(false)))
            },
            Token::KwNil => {
                self.advance_tokens();
                self.parse_postfix(Expression::Literal(Literal::Nil))
            },
            Token::LParen => {
                self.advance_tokens();
                if self.pos <= start {
                    return None;
                }
                let expr = match self.parse_binary_expression_impl(0) {
                    Some(e) => e,
                    None => {
                        return None;
                    },
                };
                if !self.expect(Token::RParen) {
                    return None;
                }
                if self.pos > start {
                    self.parse_postfix(expr)
                } else {
                    Some(expr)
                }
            },
            Token::KwFunction => self.parse_function_decl_expression(),
            Token::LBrace => self.parse_table_ctor(false),
            Token::At => self.parse_table_ctor(true),
            _ => {
                self.emit_err(ParserErrorType::InvalidExpression, "Unexpected token in expression");
                None
            },
        }
    }

    /// Parses the literal of a function without a name, and what follows
    /// it.
    pub fn parse_function_decl_expression(&mut self) -> (r: Option<Expression>)
        requires
            old(self).wf(),
            old(self).state().peek(old(self).tv()) == TokenView::KwFunction,
        ensures
            final(self).wf(),
            final(self).tokens == old(self).tokens,
            (final(self).state(), spec_opt_expr(r)) == sp_unary(old(self).tv(), old(self).state()),
        decreases old(self).tokens@.len() - old(self).pos, 3nat,
    {
        let start = self.pos;
        self.advance_tokens();
        let after = self.pos;
        let (params, body) = match self.parse_function_decl_inner() {
            Some(x) => x,
            None => {
                return None;
            },
        };
        let e = Expression::Literal(Literal::Function { params, body, name: None });
        if after > start && self.pos > start {
            self.parse_postfix(e)
        } else {
            Some(e)
        }
    }

    /// Parses a table constructor, and what follows it; see
    /// [`sp_table_then`].
    pub fn parse_table_ctor(&mut self, is_legacy: bool) -> (r: Option<Expression>)
        requires
            old(self).wf(),
        ensures
            final(self).wf(),
            final(self).tokens == old(self).tokens,
            (final(self).state(), spec_opt_expr(r)) == sp_table_then(
                old(self).tv(),
                old(self).state(),
                if is_legacy {
                    old(self).state().step(old(self).tv())
                } else {
                    old(self).state()
                },
            ),
        decreases old(self).tokens@.len() - old(self).pos, 3nat,
    {
        let start = self.pos;
        if is_legacy {
            self.advance_tokens();
        }
        self.expect(Token::LBrace);
        if self.pos <= start {
            return None;
        }
        let fields = if self.peek_is(&Token::RBrace) {
            Vec::new()
        } else {
            match self.parse_fields() {
                Some(f) => f,
                None => {
                    return None;
                },
            }
        };
        self.expect(Token::RBrace);
        let ghost shown = spec_field_views(fields@, fields@.len() as int);
        let e = Expression::TableCtor { fields };
        proof {
            assert(e@ == ExprView::TableCtor { fields: shown });
        }
        if self.pos > start {
            self.parse_postfix(e)
        } else {
            Some(e)
        }
    }

    fn parse_fields(&mut self) -> (r: Option<Vec<(Option<Expression>, Expression)>>)
        requires
            old(self).wf(),
        ensures
            final(self).wf(),
            final(self).tokens == old(self).tokens,
            (final(self).state(), spec_opt_fields(r)) == sp_fields(
                old(self).tv(),
                old(self).state(),
                Seq::empty(),
            ),
        decreases old(self).tokens@.len() - old(self).pos, 6nat,
    {
        let ghost t = self.tv();
        let mut fields: Vec<(Option<Expression>, Expression)> = Vec::new();
        loop
            invariant
                self.wf(),
                self.tokens == old(self).tokens,
                t == self.tv(),
                self.pos >= old(self).pos,
                sp_fields(t, old(self).state(), Seq::empty()) == sp_fields(
                    t,
                    self.state(),
                    spec_field_views(fields@, fields@.len() as int),
                ),
            decreases self.tokens@.len() - self.pos,
        {
            let here = self.pos;
            let key: Option<Expression> = if self.peek_is(&Token::LBracket) {
                self.advance_tokens();
                if self.pos <= here {
                    return None;
                }
                let k = match self.parse_binary_expression_impl(0) {
                    Some(k) => k,
                    None => {
                        self.emit_err(
                            ParserErrorType::InvalidExpression,
                            "Table constructor key requires a valid expression",
                        );
                        return None;
                    },
                };
                if !self.expect(Token::RBracket) {
                    self.emit_err(
                        ParserErrorType::UnclosedBrackets,
                        "Expected ']' after table constructor key",
                    );
                    return None;
                }
                if !self.expect(Token::Assign) {
                    self.emit_err(
                        ParserErrorType::UnexpectedToken,
                        "Expected '=' after table constructor key",
                    );
                    return None;
                }
                Some(k)
            } else {
                match self.peek_token() {
                    Token::Ident(name) => {
                        if self.pos < self.tokens.len() && self.pos + 1 < self.tokens.len()
                            && self.tokens[self.pos + 1].same(&Token::Assign) {
                            self.advance_tokens();
                            self.advance_tokens();
                            Some(Expression::Literal(Literal::String(name)))
                        } else {
                            None
                        }
                    },
                    _ => None,
                }
            };
            if self.pos < here {
                return None;
            }
            let value = match self.parse_binary_expression_impl(0) {
                Some(v) => v,
                None => {
                    self.emit_err(
                        ParserErrorType::InvalidExpression,
                        "Table constructor value requires a valid expression",
                    );
                    return None;
                },
            };
            proof {
                lemma_field_views_push(fields@, (key, value));
            }
            fields.push((key, value));
            if self.peek_is(&Token::Comma) {
                self.advance_tokens();
                if self.pos <= here {
                    return Some(fields);
                }
            } else {
                return Some(fields);
            }
        }
    }

    fn parse_args(&mut self) -> (r: Option<Vec<Expression>>)
        requires
            old(self).wf(),
        ensures
            final(self).wf(),
            final(self).tokens == old(self).tokens,
            (final(self).state(), spec_opt_exprs(r)) == sp_args(
                old(self).tv(),
                old(self).state(),
                Seq::empty(),
            ),
        decreases old(self).tokens@.len() - old(self).pos, 6nat,
    {
        let ghost t = self.tv();
        let mut args: Vec<Expression> = Vec::new();
        loop
            invariant
                self.wf(),
                self.tokens == old(self).tokens,
                t == self.tv(),
                self.pos >= old(self).pos,
                sp_args(t, old(self).state(), Seq::empty()) == sp_args(
                    t,
                    self.state(),
                    spec_expr_views(args@, args@.len() as int),
                ),
            decreases self.tokens@.len() - self.pos,
        {
            let here = self.pos;
            let arg = match self.parse_binary_expression_impl(0) {
                Some(a) => a,
                None => {
                    self.emit_err(
                        ParserErrorType::InvalidExpression,
                        "Function call argument requires a valid expression",
                    );
                    return None;
                },
            };
            proof {
                lemma_expr_views_push(args@, arg);
            }
            args.push(arg);
            if self.peek_is(&Token::Comma) {
                self.advance_tokens();
                if self.pos <= here {
                    return Some(args);
                }
            } else {
                return Some(args);
            }
        }
    }

    /// Parses the calls, indexings and member accesses that follow an
    /// expression; see [`sp_postfix`].
    pub fn parse_postfix(&mut self, e: Expression) -> (r: Option<Expression>)
        requires
            old(self).wf(),
        ensures
            final(self).wf(),
            final(self).tokens == old(self).tokens,
            (final(self).state(), spec_opt_expr(r)) == sp_postfix(
                old(self).tv(),
                old(self).state(),
                e@,
            ),
        decreases old(self).tokens@.len() - old(self).pos, 2nat,
    {
        let ghost t = self.tv();
        let mut cur = e;
        loop
            invariant
                self.wf(),
                self.tokens == old(self).tokens,
                t == self.tv(),
                self.pos >= old(self).pos,
                sp_postfix(t, old(self).state(), e@) == sp_postfix(t, self.state(), cur@),
            decreases self.tokens@.len() - self.pos,
        {
            let here = self.pos;
            if self.peek_is(&Token::LParen) {
                self.advance_tokens();
                if self.pos <= here {
                    return Some(cur);
                }
                let args = if self.peek_is(&Token::RParen) {
                    Vec::new()
                } else {
                    match self.parse_args() {
                        Some(a) => a,
                        None => {
                            return None;
                        },
                    }
                };
                if !self.expect(Token::RParen) {
                    self.emit_err(
                        ParserErrorType::UnclosedBrackets,
                        "Expected ')' after function call arguments",
                    );
                    return None;
                }
                let ghost callee = cur@;
                let ghost shown = spec_expr_views(args@, args@.len() as int);
                cur = Expression::FnCall { callee: Box::new(cur), arguments: args };
                proof {
                    assert(cur@ == ExprView::FnCall { callee: Box::new(callee), arguments: shown });
                }
                if self.pos <= here {
                    return Some(cur);
                }
            } else if self.peek_is(&Token::LBracket) {
                self.advance_tokens();
                if self.pos <= here {
                    return Some(cur);
                }
                let index = match self.parse_binary_expression_impl(0) {
                    Some(i) => i,
                    None => {
                        self.emit_err(
                            ParserErrorType::InvalidExpression,
                            "Index expression requires a valid expression",
                        );
                        return None;
                    },
                };
                if !self.expect(Token::RBracket) {
                    self.emit_err(
                        ParserErrorType::UnclosedBrackets,
                        "Expected ']' after index expression",
                    );
                    return None;
                }
                let ghost collection = cur@;
                let ghost shown = index@;
                cur = Expression::IndexOf { collection: Box::new(cur), index: Box::new(index) };
                proof {
                    assert(cur@ == ExprView::IndexOf {
                        collection: Box::new(collection),
                        index: Box::new(shown),
                    });
                }
                if self.pos <= here {
                    return Some(cur);
                }
            } else if self.peek_is(&Token::Dot) {
                self.advance_tokens();
                match self.peek_token() {
                    Token::Ident(member) => {
                        self.advance_tokens();
                        let ghost collection = cur@;
                        let ghost text = member@;
                        cur = Expression::MemberAccess { collection: Box::new(cur), member };
                        proof {
                            assert(cur@ == ExprView::MemberAccess {
                                collection: Box::new(collection),
                                member: text,
                            });
                        }
                        if self.pos <= here {
                            return Some(cur);
                        }
                    },
                    _ => {
                        self.emit_err(
                            ParserErrorType::UnexpectedToken,
                            "Expected member name after '.'",
                        );
                        return None;
                    },
                }
            } else {
                return Some(cur);
            }
        }
    }

    fn parse_names(&mut self) -> (r: Option<Vec<String>>)
        requires
            old(self).wf(),
        ensures
            final(self).wf(),
            final(self).tokens == old(self).tokens,
            (final(self).state(), spec_opt_names(r)) == sp_names(
                old(self).tv(),
                old(self).state(),
                Seq::empty(),
            ),
    {
        let ghost t = self.tv();
        let mut names: Vec<String> = Vec::new();
        proof {
            assert(spec_names(names@) =~= Seq::<Seq<char>>::empty());
        }
        loop
            invariant
                self.wf(),
                self.tokens == old(self).tokens,
                t == self.tv(),
                sp_names(t, old(self).state(), Seq::empty()) == sp_names(
                    t,
                    self.state(),
                    spec_names(names@),
                ),
            decreases self.tokens@.len() - self.pos,
        {
            let here = self.pos;
            match self.peek_token() {
                Token::Ident(name) => {
                    let ghost before = spec_names(names@);
                    let ghost text = name@;
                    names.push(name);
                    proof {
                        assert(spec_names(names@) =~= before.push(text));
                    }
                    self.advance_tokens();
                    if self.peek_is(&Token::Comma) {
                        self.advance_tokens();
                        if self.pos <= here {
                            return Some(names);
                        }
                    } else {
                        return Some(names);
                    }
                },
                _ => {
                    self.emit_err(ParserErrorType::UnexpectedToken, "Expected identifier");
                    return None;
                },
            }
        }
    }

    /// Parses the parameters and the body of a function; see
    /// [`sp_function`].
    pub fn parse_function_decl_inner(&mut self) -> (r: Option<(Vec<String>, Vec<Statement>)>)
        requires
            old(self).wf(),
        ensures
            final(self).wf(),
            final(self).tokens == old(self).tokens,
            (final(self).state(), spec_opt_function(r)) == sp_function(
                old(self).tv(),
                old(self).state(),
            ),
        decreases old(self).tokens@.len() - old(self).pos, 9nat,
    {
        let start = self.pos;
        self.expect(Token::LParen);
        let params = if self.peek_is(&Token::RParen) {
            let v: Vec<String> = Vec::new();
            proof {
                assert(spec_names(v@) =~= Seq::<Seq<char>>::empty());
            }
            v
        } else {
            match self.parse_names() {
                Some(p) => p,
                None => {
                    return None;
                },
            }
        };
        self.expect(Token::RParen);
        if self.pos < start {
            return None;
        }
        let body = self.parse_block(BlockEnd::End);
        self.expect(Token::KwEnd);
        Some((params, body))
    }

    /// Parses statements up to the end of their sequence; see
    /// [`sp_block`].
    pub fn parse_block(&mut self, end: BlockEnd) -> (r: Vec<Statement>)
        requires
            old(self).wf(),
        ensures
            final(self).wf(),
            final(self).tokens == old(self).tokens,
            (final(self).state(), spec_stmt_views(r@, r@.len() as int)) == sp_block(
                old(self).tv(),
                old(self).state(),
                Seq::empty(),
                end,
            ),
        decreases old(self).tokens@.len() - old(self).pos, 8nat,
    {
        let ghost t = self.tv();
        let mut body: Vec<Statement> = Vec::new();
        loop
            invariant
                self.wf(),
                self.tokens == old(self).tokens,
                t == self.tv(),
                self.pos >= old(self).pos,
                sp_block(t, old(self).state(), Seq::empty(), end) == sp_block(
                    t,
                    self.state(),
                    spec_stmt_views(body@, body@.len() as int),
                    end,
                ),
            decreases self.tokens@.len() - self.pos,
        {
            let here = self.pos;
            if self.block_stops(end) {
                return body;
            }
            match self.parse_statement() {
                Some(stmt) => {
                    proof {
                        lemma_stmt_views_push(body@, stmt);
                    }
                    body.push(stmt);
                    if self.pos <= here {
                        return body;
                    }
                },
                None => {
                    return body;
                },
            }
        }
    }

    fn parse_values(&mut self, strict: bool) -> (r: Option<Vec<Expression>>)
        requires
            old(self).wf(),
        ensures
            final(self).wf(),
            final(self).tokens == old(self).tokens,
            (final(self).state(), spec_opt_exprs(r)) == sp_values(
                old(self).tv(),
                old(self).state(),
                Seq::empty(),
                strict,
            ),
        decreases old(self).tokens@.len() - old(self).pos, 6nat,
    {
        let ghost t = self.tv();
        let mut values: Vec<Expression> = Vec::new();
        loop
            invariant
                self.wf(),
                self.tokens == old(self).tokens,
                t == self.tv(),
                self.pos >= old(self).pos,
                sp_values(t, old(self).state(), Seq::empty(), strict) == sp_values(
                    t,
                    self.state(),
                    spec_expr_views(values@, values@.len() as int),
                    strict,
                ),
            decreases self.tokens@.len() - self.pos,
        {
            let here = self.pos;
            let e = match self.parse_binary_expression_impl(0) {
                Some(e) => e,
                None => {
                    if strict {
                        return None;
                    } else {
                        return Some(values);
                    }
                },
            };
            proof {
                lemma_expr_views_push(values@, e);
            }
            values.push(e);
            if self.peek_is(&Token::Comma) {
                self.advance_tokens();
                if self.pos <= here {
                    return Some(values);
                }
            } else {
                return Some(values);
            }
        }
    }

    fn parse_elifs(&mut self) -> (r: Option<Vec<(Expression, Vec<Statement>)>>)
        requires
            old(self).wf(),
        ensures
            final(self).wf(),
            final(self).tokens == old(self).tokens,
            (final(self).state(), spec_opt_elifs(r)) == sp_elifs(
                old(self).tv(),
                old(self).state(),
                Seq::empty(),
            ),
        decreases old(self).tokens@.len() - old(self).pos, 9nat,
    {
        let ghost t = self.tv();
        let mut branches: Vec<(Expression, Vec<Statement>)> = Vec::new();
        loop
            invariant
                self.wf(),
                self.tokens == old(self).tokens,
                t == self.tv(),
                self.pos >= old(self).pos,
                sp_elifs(t, old(self).state(), Seq::empty()) == sp_elifs(
                    t,
                    self.state(),
                    spec_elif_views(branches@, branches@.len() as int),
                ),
            decreases self.tokens@.len() - self.pos,
        {
            let here = self.pos;
            if !self.peek_is(&Token::KwElseIf) {
                return Some(branches);
            }
            self.advance_tokens();
            if self.pos <= here {
                return None;
            }
            let cond = match self.parse_binary_expression_impl(0) {
                Some(c) => c,
                None => {
                    return None;
                },
            };
            self.expect(Token::KwThen);
            if self.pos <= here {
                return None;
            }
            let body = self.parse_block(BlockEnd::Branch);
            proof {
                lemma_elif_views_push(branches@, (cond, body));
            }
            branches.push((cond, body));
            if self.pos <= here {
                return Some(branches);
            }
        }
    }

    /// Parses a function declaration after the word `function`; see
    /// [`sp_function_decl`].
    pub fn parse_function_decl_statement(&mut self, is_local: bool) -> (r: Option<Statement>)
        requires
            old(self).wf(),
        ensures
            final(self).wf(),
            final(self).tokens == old(self).tokens,
            (final(self).state(), spec_opt_stmt(r)) == sp_function_decl(
                old(self).tv(),
                old(self).state(),
                is_local,
            ),
        decreases old(self).tokens@.len() - old(self).pos, 10nat,
    {
        let start = self.pos;
        let name = match self.peek_token() {
            Token::Ident(name) => name,
            _ => {
                self.emit_err(
                    ParserErrorType::UnexpectedToken,
                    "Expected function name identifier",
                );
                return None;
            },
        };
        self.advance_tokens();
        if self.pos <= start {
            return None;
        }
        let (params, body) = match self.parse_function_decl_inner() {
            Some(x) => x,
            None => {
                return None;
            },
        };
        let ghost ps = spec_names(params@);
        let ghost bs = spec_stmt_views(body@, body@.len() as int);
        let func = Expression::Literal(
            Literal::Function { params, body, name: Some(name.clone()) },
        );
        proof {
            assert(func@ == ExprView::Literal(
                LitView::Function { params: ps, body: bs, name: Some(name@) },
            ));
        }
        if is_local {
            let mut names: Vec<String> = Vec::new();
            names.push(name);
            let mut values: Vec<Expression> = Vec::new();
            values.push(func);
            proof {
                assert(spec_names(names@) =~= seq![name@]);
                assert(spec_expr_views(values@, 1) =~= seq![func@]) by {
                    reveal_with_fuel(spec_expr_views, 2);
                }
            }
            let ghost ns = spec_names(names@);
            let ghost vs = spec_expr_views(values@, values@.len() as int);
            let stmt = Statement::Declaration { names, values };
            proof {
                assert(stmt@ == StmtView::Declaration { names: ns, values: vs });
            }
            Some(stmt)
        } else {
            let ghost text = name@;
            let ghost shown = func@;
            let target = Expression::Identifier(name);
            proof {
                assert(target@ == ExprView::Identifier(text));
            }
            let assign = Expression::BinOp {
                left: Box::new(target),
                operator: BinOp::Assign,
                right: Box::new(func),
            };
            proof {
                assert(assign@ == ExprView::BinOp {
                    left: Box::new(ExprView::Identifier(text)),
                    operator: BinOp::Assign,
                    right: Box::new(shown),
                });
            }
            let stmt = Statement::ExprStatement(Box::new(assign));
            proof {
                assert(stmt@ == StmtView::ExprStatement(Box::new(assign@)));
            }
            Some(stmt)
        }
    }

    /// Parses a declaration of locals, or of a local function.
    pub fn parse_local_decl_statement(&mut self) -> (r: Option<Statement>)
        requires
            old(self).wf(),
            old(self).state().peek(old(self).tv()) == TokenView::KwLocal,
        ensures
            final(self).wf(),
            final(self).tokens == old(self).tokens,
            (final(self).state(), spec_opt_stmt(r)) == sp_statement(
                old(self).tv(),
                old(self).state(),
            ),
        decreases old(self).tokens@.len() - old(self).pos, 6nat,
    {
        let start = self.pos;
        self.advance_tokens();
        if self.pos <= start {
            return None;
        }
        if self.peek_is(&Token::KwFunction) {
            self.advance_tokens();
            return self.parse_function_decl_statement(true);
        }
        let names = match self.parse_names() {
            Some(n) => n,
            None => {
                return None;
            },
        };
        self.expect(Token::Assign);
        if self.pos <= start {
            return None;
        }
        match self.parse_values(true) {
            Some(values) => {
                let ghost ns = spec_names(names@);
                let ghost vs = spec_expr_views(values@, values@.len() as int);
                let stmt = Statement::Declaration { names, values };
                proof {
                    assert(stmt@ == StmtView::Declaration { names: ns, values: vs });
                }
                Some(stmt)
            },
            None => None,
        }
    }

    /// Parses an `if` statement.
    pub fn parse_if_statement(&mut self) -> (r: Option<Statement>)
        requires
            old(self).wf(),
            old(self).state().peek(old(self).tv()) == TokenView::KwIf,
        ensures
            final(self).wf(),
            final(self).tokens == old(self).tokens,
            (final(self).state(), spec_opt_stmt(r)) == sp_statement(
                old(self).tv(),
                old(self).state(),
            ),
        decreases old(self).tokens@.len() - old(self).pos, 6nat,
    {
        let start = self.pos;
        self.advance_tokens();
        if self.pos <= start {
            return None;
        }
        let cond = match self.parse_binary_expression_impl(0) {
            Some(c) => c,
            None => {
                return None;
            },
        };
        self.expect(Token::KwThen);
        if self.pos <= start {
            return None;
        }
        let then_branch = self.parse_block(BlockEnd::Branch);
        if self.pos <= start {
            return None;
        }
        let elif_branches = match self.parse_elifs() {
            Some(e) => e,
            None => {
                return None;
            },
        };
        let else_branch = if self.peek_is(&Token::KwElse) && self.pos > start {
            self.advance_tokens();
            Some(self.parse_block(BlockEnd::End))
        } else {
            None
        };
        self.expect(Token::KwEnd);
        let ghost c = cond@;
        let ghost th = spec_stmt_views(then_branch@, then_branch@.len() as int);
        let ghost el = spec_elif_views(elif_branches@, elif_branches@.len() as int);
        let ghost es: Option<Seq<StmtView>> = if else_branch is Some {
            Some(spec_stmt_views(else_branch->0@, else_branch->0@.len() as int))
        } else {
            None
        };
        let stmt = Statement::IfStmt {
            condition: Box::new(cond),
            then_branch,
            elif_branches,
            else_branch,
        };
        proof {
            assert(stmt@ == StmtView::IfStmt {
                condition: Box::new(c),
                then_branch: th,
                elif_branches: el,
                else_branch: es,
            });
        }
        Some(stmt)
    }

    /// Parses a `while` statement.
    pub fn parse_while_statement(&mut self) -> (r: Option<Statement>)
        requires
            old(self).wf(),
            old(self).state().peek(old(self).tv()) == TokenView::KwWhile,
        ensures
            final(self).wf(),
            final(self).tokens == old(self).tokens,
            (final(self).state(), spec_opt_stmt(r)) == sp_statement(
                old(self).tv(),
                old(self).state(),
            ),
        decreases old(self).tokens@.len() - old(self).pos, 6nat,
    {
        let start = self.pos;
        self.advance_tokens();
        if self.pos <= start {
            return None;
        }
        let cond = match self.parse_binary_expression_impl(0) {
            Some(c) => c,
            None => {
                return None;
            },
        };
        self.expect(Token::KwDo);
        if self.pos <= start {
            return None;
        }
        let body = self.parse_block(BlockEnd::End);
        self.expect(Token::KwEnd);
        let ghost c = cond@;
        let ghost bs = spec_stmt_views(body@, body@.len() as int);
        let stmt = Statement::WhileStmt { condition: Box::new(cond), body };
        proof {
            assert(stmt@ == StmtView::WhileStmt { condition: Box::new(c), body: bs });
        }
        Some(stmt)
    }

    /// Parses a `repeat` statement.
    pub fn parse_repeat_statement(&mut self) -> (r: Option<Statement>)
        requires
            old(self).wf(),
            old(self).state().peek(old(self).tv()) == TokenView::KwRepeat,
        ensures
            final(self).wf(),
            final(self).tokens == old(self).tokens,
            (final(self).state(), spec_opt_stmt(r)) == sp_statement(
                old(self).tv(),
                old(self).state(),
            ),
        decreases old(self).tokens@.len() - old(self).pos, 6nat,
    {
        let start = self.pos;
        self.advance_tokens();
        if self.pos <= start {
            return None;
        }
        let body = self.parse_block(BlockEnd::Until);
        self.expect(Token::KwUntil);
        if self.pos <= start {
            return None;
        }
        match self.parse_binary_expression_impl(0) {
            Some(cond) => {
                let ghost c = cond@;
                let ghost bs = spec_stmt_views(body@, body@.len() as int);
                let stmt = Statement::RepeatStmt { body, condition: Box::new(cond) };
                proof {
                    assert(stmt@ == StmtView::RepeatStmt { body: bs, condition: Box::new(c) });
                }
                Some(stmt)
            },
            None => None,
        }
    }

    /// Parses a `return` statement. Where a token follows that ends the
    /// sequence of statements, nothing is returned.
    pub fn parse_return_statement(&mut self) -> (r: Option<Statement>)
        requires
            old(self).wf(),
            old(self).state().peek(old(self).tv()) == TokenView::KwReturn,
        ensures
            final(self).wf(),
            final(self).tokens == old(self).tokens,
            (final(self).state(), spec_opt_stmt(r)) == sp_statement(
                old(self).tv(),
                old(self).state(),
            ),
        decreases old(self).tokens@.len() - old(self).pos, 6nat,
    {
        let start = self.pos;
        self.advance_tokens();
        if self.pos <= start {
            return None;
        }
        if self.ends_return() {
            let values: Vec<Expression> = Vec::new();
            let stmt = Statement::ReturnStmt { values };
            proof {
                assert(stmt@ == StmtView::ReturnStmt { values: Seq::empty() });
            }
            return Some(stmt);
        }
        match self.parse_values(false) {
            Some(values) => {
                let ghost vs = spec_expr_views(values@, values@.len() as int);
                let stmt = Statement::ReturnStmt { values };
                proof {
                    assert(stmt@ == StmtView::ReturnStmt { values: vs });
                }
                Some(stmt)
            },
            None => None,
        }
    }

    /// Parses a statement; see [`sp_statement`].
    pub fn parse_statement(&mut self) -> (r: Option<Statement>)
        requires
            old(self).wf(),
        ensures
            final(self).wf(),
            final(self).tokens == old(self).tokens,
            (final(self).state(), spec_opt_stmt(r)) == sp_statement(
                old(self).tv(),
                old(self).state(),
            ),
        decreases old(self).tokens@.len() - old(self).pos, 7nat,
    {
        if self.peek_is(&Token::KwLocal) {
            self.parse_local_decl_statement()
        } else if self.peek_is(&Token::KwIf) {
            self.parse_if_statement()
        } else if self.peek_is(&Token::KwWhile) {
            self.parse_while_statement()
        } else if self.peek_is(&Token::KwRepeat) {
            self.parse_repeat_statement()
        } else if self.peek_is(&Token::KwFunction) {
            self.advance_tokens();
            self.parse_function_decl_statement(false)
        } else if self.peek_is(&Token::KwReturn) {
            self.parse_return_statement()
        } else {
            match self.parse_binary_expression_impl(0) {
                Some(e) => {
                    let ghost shown = e@;
                    let stmt = Statement::ExprStatement(Box::new(e));
                    proof {
                        assert(stmt@ == StmtView::ExprStatement(Box::new(shown)));
                    }
                    Some(stmt)
                },
                None => None,
            }
        }
    }

    /// Parses the statements of a program; see [`sp_program`].
    pub fn parse_program(&mut self) -> (r: Program)
        requires
            old(self).wf(),
        ensures
            final(self).wf(),
            final(self).tokens == old(self).tokens,
            (final(self).state(), r@) == sp_program(old(self).tv(), old(self).state()),
    {
        let body = self.parse_block(BlockEnd::Program);
        Program { body }
    }

    /// Parses a program.
    pub fn parse(&mut self) -> (r: Program)
        requires
            old(self).wf(),
        ensures
            final(self).wf(),
            final(self).tokens == old(self).tokens,
            (final(self).state(), r@) == sp_program(old(self).tv(), old(self).state()),
    {
        self.parse_program()
    }
}

} // verus!
