//! The grammar, stated over token models and positions in the token sequence.
//!
//! Statements are parsed by recursive descent, expressions by precedence
//! climbing. Each function takes the position where its construct starts and
//! gives back the construct with the position after it, or the first failure.
//! The checks `pos < p <= ts.len()` before a recursive call always hold (every
//! construct consumes at least one token); they make termination evident.

use vstd::prelude::*;

use super::ast::{priority_of, Priority, SpecExpr, SpecStmt};
use super::error::SpecParseError;
use crate::lexer::{SpecToken, TokenKind};

verus! {

/// A construct and the position after it, or the failure.
pub type Parsed<T> = Result<(T, int), SpecParseError>;

/// The outcome of parsing statements one after another.
pub enum Block {
    /// The tokens ran out: every statement and the end position.
    Done(Seq<SpecStmt>, int),
    /// The statement that starts at the last field failed: the statements
    /// before it and the failure.
    Stopped(Seq<SpecStmt>, SpecParseError, int),
}

/// Whether a token of kind `k` stands at `pos`.
pub open spec fn has_kind(ts: Seq<SpecToken>, pos: int, k: TokenKind) -> bool {
    0 <= pos < ts.len() && ts[pos].kind == k
}

/// Requires a token of kind `k` at `pos` (its payload is not looked at).
pub open spec fn expect(ts: Seq<SpecToken>, pos: int, k: TokenKind) -> Parsed<SpecToken> {
    if pos < 0 || pos >= ts.len() {
        Err(SpecParseError::EOF)
    } else if ts[pos].kind == k {
        Ok((ts[pos], pos + 1))
    } else {
        Err(SpecParseError::ExpectedToken { expected: SpecToken::of_kind(k), got: ts[pos] })
    }
}

/// Skips the tokens up to and including the next `;`; the position after it.
pub open spec fn skip_through_semicolon(ts: Seq<SpecToken>, pos: int) -> Result<int, SpecParseError>
    decreases ts.len() - pos,
{
    if pos < 0 || pos >= ts.len() {
        Err(SpecParseError::EOF)
    } else if ts[pos].kind == TokenKind::Semicolon {
        Ok(pos + 1)
    } else {
        skip_through_semicolon(ts, pos + 1)
    }
}

/// `let <identifier> = ... ;`: the bound expression is not captured.
pub open spec fn let_statement(ts: Seq<SpecToken>, pos: int) -> Parsed<SpecStmt> {
    match expect(ts, pos, TokenKind::Let) {
        Err(e) => Err(e),
        Ok((_, after_let)) => match expect(ts, after_let, TokenKind::Identifier) {
            Err(e) => Err(e),
            Ok((id, after_name)) => match expect(ts, after_name, TokenKind::Assign) {
                Err(e) => Err(e),
                Ok((_, after_assign)) => match skip_through_semicolon(ts, after_assign) {
                    Err(e) => Err(e),
                    Ok(end) => Ok((SpecStmt::Let { identifier: id.text, expression: SpecExpr::Placeholder }, end)),
                },
            },
        },
    }
}

/// `return ... ;`: the returned expression is not captured.
pub open spec fn return_statement(ts: Seq<SpecToken>, pos: int) -> Parsed<SpecStmt> {
    match expect(ts, pos, TokenKind::Return) {
        Err(e) => Err(e),
        Ok((_, after_return)) => match skip_through_semicolon(ts, after_return) {
            Err(e) => Err(e),
            Ok(end) => Ok((SpecStmt::Return(SpecExpr::Placeholder), end)),
        },
    }
}

/// A statement block: statements up to the end of the tokens, or up to a
/// statement that cannot start because its first token is `}`; that `}` is
/// left in place.
pub open spec fn block(ts: Seq<SpecToken>, pos: int) -> Parsed<Seq<SpecStmt>>
    decreases ts.len() - pos, 6nat,
{
    match statements(ts, pos, Seq::empty()) {
        Block::Done(done, p) => Ok((done, p)),
        Block::Stopped(done, e, start) => if has_kind(ts, start, TokenKind::RightBrace) {
            Ok((done, start))
        } else {
            Err(e)
        },
    }
}

/// Statements one after another from `pos`, after the statements `done`.
pub open spec fn statements(ts: Seq<SpecToken>, pos: int, done: Seq<SpecStmt>) -> Block
    decreases ts.len() - pos, 5nat,
{
    if pos < 0 || pos >= ts.len() {
        Block::Done(done, pos)
    } else {
        match statement(ts, pos) {
            Err(e) => Block::Stopped(done, e, pos),
            Ok((st, p)) => if pos < p <= ts.len() {
                statements(ts, p, done.push(st))
            } else {
                Block::Done(done, pos)
            },
        }
    }
}

/// One statement, chosen by its first token: `let`, `return`, or else an
/// expression followed by an optional `;`.
pub open spec fn statement(ts: Seq<SpecToken>, pos: int) -> Parsed<SpecStmt>
    decreases ts.len() - pos, 4nat,
{
    if pos < 0 || pos >= ts.len() {
        Err(SpecParseError::EOF)
    } else if ts[pos].kind == TokenKind::Let {
        let_statement(ts, pos)
    } else if ts[pos].kind == TokenKind::Return {
        return_statement(ts, pos)
    } else {
        match expression(ts, pos, Priority::Lowest) {
            Err(e) => Err(e),
            Ok((e, p)) => if has_kind(ts, p, TokenKind::Semicolon) {
                Ok((SpecStmt::Expression(e), p + 1))
            } else {
                Ok((SpecStmt::Expression(e), p))
            },
        }
    }
}

/// An expression whose infix operators all bind tighter than `floor`: one
/// prefix term, then the infix operators that follow it.
pub open spec fn expression(ts: Seq<SpecToken>, pos: int, floor: Priority) -> Parsed<SpecExpr>
    decreases ts.len() - pos, 3nat,
{
    match prefix(ts, pos) {
        Err(e) => Err(e),
        Ok((left, p)) => if pos < p <= ts.len() {
            infix_loop(ts, p, floor, left)
        } else {
            Ok((left, p))
        },
    }
}

/// Folds the infix operators at `pos` that bind tighter than `floor` onto
/// `left`, each with a right operand parsed at the operator's own priority.
/// It stops at the end of the tokens, at `;`, or at a token whose priority is
/// not above `floor`.
pub open spec fn infix_loop(ts: Seq<SpecToken>, pos: int, floor: Priority, left: SpecExpr) -> Parsed<SpecExpr>
    decreases ts.len() - pos, 1nat,
{
    if 0 <= pos < ts.len() && ts[pos].kind != TokenKind::Semicolon && priority_of(ts[pos].kind).rank()
        > floor.rank() {
        let op = ts[pos];
        match expression(ts, pos + 1, priority_of(op.kind)) {
            Err(e) => Err(e),
            Ok((right, p)) => if pos < p <= ts.len() {
                infix_loop(
                    ts,
                    p,
                    floor,
                    SpecExpr::Binary { left: Box::new(left), operator: op, right: Box::new(right) },
                )
            } else {
                Ok((left, p))
            },
        }
    } else {
        Ok((left, pos))
    }
}

/// A term in operand position: a literal, an identifier, `!` or `-` applied
/// to a term, a parenthesized expression, or an `if`. Any other token cannot
/// begin an expression.
pub open spec fn prefix(ts: Seq<SpecToken>, pos: int) -> Parsed<SpecExpr>
    decreases ts.len() - pos, 2nat,
{
    if pos < 0 || pos >= ts.len() {
        Err(SpecParseError::EOF)
    } else {
        let t = ts[pos];
        match t.kind {
            TokenKind::True => Ok((SpecExpr::Boolean(true), pos + 1)),
            TokenKind::False => Ok((SpecExpr::Boolean(false), pos + 1)),
            TokenKind::Identifier => Ok((SpecExpr::Identifier(t.text), pos + 1)),
            TokenKind::Integer => Ok((SpecExpr::Integer(t.value), pos + 1)),
            TokenKind::Bang | TokenKind::Minus => match expression(ts, pos + 1, Priority::Unary) {
                Err(e) => Err(e),
                Ok((e, p)) => Ok((SpecExpr::Unary { operator: t, expression: Box::new(e) }, p)),
            },
            TokenKind::LeftParen => match expression(ts, pos + 1, Priority::Lowest) {
                Err(e) => Err(e),
                Ok((e, p)) => match expect(ts, p, TokenKind::RightParen) {
                    Err(e2) => Err(e2),
                    Ok((_, q)) => Ok((e, q)),
                },
            },
            TokenKind::If => if_expression(ts, pos + 1),
            _ => Err(SpecParseError::UnexpectedToken { got: t }),
        }
    }
}

/// What follows `if`: `( <condition> ) { <block> }`, optionally followed by
/// `else { <block> }`.
pub open spec fn if_expression(ts: Seq<SpecToken>, pos: int) -> Parsed<SpecExpr>
    decreases ts.len() - pos, 1nat,
{
    match expect(ts, pos, TokenKind::LeftParen) {
        Err(e) => Err(e),
        Ok((_, after_open)) => {
            match expression(ts, after_open, Priority::Lowest) {
                Err(e) => Err(e),
                Ok((cond, after_cond)) => match expect(ts, after_cond, TokenKind::RightParen) {
                    Err(e) => Err(e),
                    Ok((_, after_close)) => match expect(ts, after_close, TokenKind::LeftBrace) {
                        Err(e) => Err(e),
                        Ok((_, conseq_start)) => if pos < conseq_start <= ts.len() {
                            match block(ts, conseq_start) {
                                Err(e) => Err(e),
                                Ok((conseq, conseq_end)) => match expect(ts, conseq_end, TokenKind::RightBrace) {
                                    Err(e) => Err(e),
                                    Ok((_, after_conseq)) => if has_kind(ts, after_conseq, TokenKind::Else) {
                                        match expect(ts, after_conseq + 1, TokenKind::LeftBrace) {
                                            Err(e) => Err(e),
                                            Ok((_, altern_start)) => if pos < altern_start <= ts.len() {
                                                match block(ts, altern_start) {
                                                    Err(e) => Err(e),
                                                    Ok((altern, altern_end)) => match expect(ts, altern_end, TokenKind::RightBrace) {
                                                        Err(e) => Err(e),
                                                        Ok((_, end)) => Ok((
                                                            SpecExpr::If {
                                                                cond: Box::new(cond),
                                                                conseq,
                                                                altern: Some(altern),
                                                            },
                                                            end,
                                                        )),
                                                    },
                                                }
                                            } else {
                                                Err(SpecParseError::EOF)
                                            },
                                        }
                                    } else {
                                        Ok((SpecExpr::If { cond: Box::new(cond), conseq, altern: None }, after_conseq))
                                    },
                                },
                            }
                        } else {
                            Err(SpecParseError::EOF)
                        },
                    },
                },
            }
        },
    }
}

/// A whole program from `pos`: its statements, or the first failure.
pub open spec fn program(ts: Seq<SpecToken>, pos: int) -> Result<Seq<SpecStmt>, SpecParseError> {
    match statements(ts, pos, Seq::empty()) {
        Block::Done(done, _) => Ok(done),
        Block::Stopped(_, e, _) => Err(e),
    }
}

} // verus!
