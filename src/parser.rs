//! Pratt parser from tokens to a program tree.

mod ast;
mod error;
mod grammar;

pub use ast::{
    expr_model, expr_text, priority_of, stmt_model, stmt_text, stmts_model, stmts_text, Expression, Priority, SpecExpr, SpecStmt,
    Statement, AST,
};
pub use error::{Error, SpecParseError};
pub use grammar::{
    block, expect, expression, has_kind, if_expression, infix_loop, let_statement, prefix, program,
    return_statement, skip_through_semicolon, statement, statements, Block, Parsed,
};

use vstd::prelude::*;

use crate::lexer::{SpecToken, Token, TokenKind};

verus! {

/// The models of a sequence of tokens.
pub open spec fn tokens_model(ts: Seq<Token>) -> Seq<SpecToken> {
    ts.map_values(|t: Token| t@)
}

/// The model of the outcome of parsing a whole program.
pub open spec fn ast_result(r: Result<AST, Error>) -> Result<Seq<SpecStmt>, SpecParseError> {
    match r {
        Ok(ast) => Ok(ast@),
        Err(e) => Err(e@),
    }
}

spec fn parsed_expr(r: Result<Expression, Error>, p: int) -> Parsed<SpecExpr> {
    match r {
        Ok(e) => Ok((e@, p)),
        Err(e) => Err(e@),
    }
}

spec fn parsed_stmt(r: Result<Statement, Error>, p: int) -> Parsed<SpecStmt> {
    match r {
        Ok(s) => Ok((s@, p)),
        Err(e) => Err(e@),
    }
}

spec fn parsed_block(r: Result<Vec<Statement>, Error>, p: int) -> Parsed<Seq<SpecStmt>> {
    match r {
        Ok(v) => Ok((stmts_model(v@), p)),
        Err(e) => Err(e@),
    }
}

spec fn parsed_token(r: Result<&Token, Error>, p: int) -> Parsed<SpecToken> {
    match r {
        Ok(t) => Ok(((*t)@, p)),
        Err(e) => Err(e@),
    }
}

proof fn lemma_stmts_model_push(s: Seq<Statement>, x: Statement)
    ensures
        stmts_model(s.push(x)) == stmts_model(s).push(x@),
{
    assert(s.push(x).subrange(0, s.len() as int) =~= s);
}

/// A parser over a borrowed token sequence, positioned by a forward cursor.
pub struct Parser<'a> {
    tokens: &'a [Token],
    pos: usize,
}

/// The statements parsed before a statement failed, with the failure and the
/// position where that statement began.
struct PartialStatements {
    statements: Vec<Statement>,
    error: Error,
    start: usize,
}

impl<'a> Parser<'a> {
    /// The models of the tokens.
    pub closed spec fn tokens(&self) -> Seq<SpecToken> {
        tokens_model(self.tokens@)
    }

    /// How many tokens have been consumed.
    pub closed spec fn cursor(&self) -> int {
        self.pos as int
    }

    /// The cursor stays within the token sequence.
    pub closed spec fn wf(&self) -> bool {
        self.pos <= self.tokens.len()
    }

    pub fn new(tokens: &'a [Token]) -> (p: Self)
        ensures
            p.wf(),
            0 <= p.cursor() <= p.tokens().len(),
            p.tokens() == tokens_model(tokens@),
            p.cursor() == 0,
    {
        Self { tokens, pos: 0 }
    }

    /// Parses the remaining tokens as a program.
    pub fn parse(&mut self) -> (r: Result<AST, Error>)
        requires
            old(self).wf(),
        ensures
            final(self).wf(),
            0 <= final(self).cursor() <= final(self).tokens().len(),
            final(self).tokens() == old(self).tokens(),
            ast_result(r) == program(old(self).tokens(), old(self).cursor()),
    {
        match self.parse_statements() {
            Ok(statements) => Ok(AST::new(statements)),
            Err(partial) => Err(partial.error),
        }
    }

    fn parse_statements(&mut self) -> (r: Result<Vec<Statement>, PartialStatements>)
        requires
            old(self).pos <= old(self).tokens.len(),
        ensures
            final(self).tokens == old(self).tokens,
            old(self).pos <= final(self).pos <= final(self).tokens.len(),
            match r {
                Ok(v) => statements(tokens_model(old(self).tokens@), old(self).pos as int, Seq::empty())
                    == Block::Done(stmts_model(v@), final(self).pos as int),
                Err(p) => statements(tokens_model(old(self).tokens@), old(self).pos as int, Seq::empty())
                    == Block::Stopped(stmts_model(p.statements@), p.error@, p.start as int)
                    && (has_kind(tokens_model(old(self).tokens@), p.start as int, TokenKind::RightBrace)
                        ==> final(self).pos == p.start),
            },
        decreases old(self).tokens@.len() - old(self).pos, 5nat,
    {
        let ghost ts = tokens_model(self.tokens@);
        let ghost start = self.pos as int;
        let mut parsed: Vec<Statement> = Vec::new();
        while self.pos < self.tokens.len()
            invariant
                self.tokens == old(self).tokens,
                ts == tokens_model(self.tokens@),
                start == old(self).pos,
                start <= self.pos <= self.tokens.len(),
                statements(ts, start, Seq::empty()) == statements(ts, self.pos as int, stmts_model(parsed@)),
            decreases self.tokens.len() - self.pos,
        {
            let at = self.pos;
            let attempt = match &self.tokens[self.pos] {
                Token::Let => self.parse_let(),
                Token::Return => self.parse_return(),
                _ => self.parse_expression_statement(),
            };
            assert(parsed_stmt(attempt, self.pos as int) == statement(ts, at as int));
            match attempt {
                Ok(stat) => {
                    proof {
                        lemma_stmts_model_push(parsed@, stat);
                    }
                    parsed.push(stat);
                },
                Err(error) => {
                    return Err(PartialStatements { statements: parsed, error, start: at });
                },
            }
        }
        Ok(parsed)
    }

    fn parse_let(&mut self) -> (r: Result<Statement, Error>)
        requires
            old(self).pos <= old(self).tokens.len(),
        ensures
            final(self).tokens == old(self).tokens,
            old(self).pos <= final(self).pos <= final(self).tokens.len(),
            r is Ok ==> old(self).pos < final(self).pos,
            parsed_stmt(r, final(self).pos as int) == let_statement(tokens_model(old(self).tokens@), old(self).pos as int),
    {
        if let Err(e) = self.expect_token(Token::Let) {
            return Err(e);
        }
        let identifier = match self.expect_token(Token::Identifier(String::new())) {
            Ok(Token::Identifier(s)) => s.clone(),
            Ok(_) => return Err(Error::EOF),
            Err(e) => return Err(e),
        };
        if let Err(e) = self.expect_token(Token::Assign) {
            return Err(e);
        }
        if let Err(e) = self.skip_through_semicolon() {
            return Err(e);
        }
        Ok(Statement::Let { identifier, expression: Expression::Placeholder })
    }

    fn parse_return(&mut self) -> (r: Result<Statement, Error>)
        requires
            old(self).pos <= old(self).tokens.len(),
        ensures
            final(self).tokens == old(self).tokens,
            old(self).pos <= final(self).pos <= final(self).tokens.len(),
            r is Ok ==> old(self).pos < final(self).pos,
            parsed_stmt(r, final(self).pos as int) == return_statement(tokens_model(old(self).tokens@), old(self).pos as int),
    {
        if let Err(e) = self.expect_token(Token::Return) {
            return Err(e);
        }
        if let Err(e) = self.skip_through_semicolon() {
            return Err(e);
        }
        Ok(Statement::Return(Expression::Placeholder))
    }

    /// Consumes the tokens up to and including the next `;`.
    fn skip_through_semicolon(&mut self) -> (r: Result<(), Error>)
        requires
            old(self).pos <= old(self).tokens.len(),
        ensures
            final(self).tokens == old(self).tokens,
            old(self).pos <= final(self).pos <= final(self).tokens.len(),
            match skip_through_semicolon(tokens_model(old(self).tokens@), old(self).pos as int) {
                Ok(p) => r is Ok && final(self).pos == p,
                Err(e) => r is Err && r->Err_0@ == e,
            },
    {
        let ghost ts = tokens_model(self.tokens@);
        let ghost start = self.pos as int;
        loop
            invariant
                self.tokens == old(self).tokens,
                ts == tokens_model(self.tokens@),
                start == old(self).pos,
                start <= self.pos <= self.tokens.len(),
                skip_through_semicolon(ts, start) == skip_through_semicolon(ts, self.pos as int),
            decreases self.tokens.len() - self.pos,
        {
            match self.next_token() {
                Ok(tok) => {
                    if tok.kind() == TokenKind::Semicolon {
                        return Ok(());
                    }
                },
                Err(e) => return Err(e),
            }
        }
    }

    fn parse_expression_statement(&mut self) -> (r: Result<Statement, Error>)
        requires
            old(self).pos < old(self).tokens.len(),
            old(self).tokens@[old(self).pos as int]@.kind != TokenKind::Let,
            old(self).tokens@[old(self).pos as int]@.kind != TokenKind::Return,
        ensures
            final(self).tokens == old(self).tokens,
            old(self).pos <= final(self).pos <= final(self).tokens.len(),
            r is Ok ==> old(self).pos < final(self).pos,
            parsed_stmt(r, final(self).pos as int) == statement(tokens_model(old(self).tokens@), old(self).pos as int),
            has_kind(tokens_model(old(self).tokens@), old(self).pos as int, TokenKind::RightBrace)
                ==> final(self).pos == old(self).pos,
        decreases old(self).tokens@.len() - old(self).pos, 4nat,
    {
        let exp = match self.parse_expression(Priority::Lowest) {
            Ok(e) => e,
            Err(e) => return Err(e),
        };
        // Semicolon is optional.
        let _ = self.expect_token(Token::Semicolon);
        Ok(Statement::Expression(exp))
    }

    /// Parses an expression using the Pratt parsing algorithm.
    fn parse_expression(&mut self, priority: Priority) -> (r: Result<Expression, Error>)
        requires
            old(self).pos <= old(self).tokens.len(),
        ensures
            final(self).tokens == old(self).tokens,
            old(self).pos <= final(self).pos <= final(self).tokens.len(),
            r is Ok ==> old(self).pos < final(self).pos,
            parsed_expr(r, final(self).pos as int) == expression(tokens_model(old(self).tokens@), old(self).pos as int, priority),
            has_kind(tokens_model(old(self).tokens@), old(self).pos as int, TokenKind::RightBrace)
                ==> final(self).pos == old(self).pos,
        decreases old(self).tokens@.len() - old(self).pos, 3nat,
    {
        let ghost ts = tokens_model(self.tokens@);
        let ghost start = self.pos as int;
        let mut exp = match self.parse_prefix() {
            Ok(e) => e,
            Err(e) => return Err(e),
        };
        while self.pos < self.tokens.len()
            invariant
                self.tokens == old(self).tokens,
                ts == tokens_model(self.tokens@),
                start == old(self).pos,
                start < self.pos <= self.tokens.len(),
                !has_kind(ts, start, TokenKind::RightBrace),
                infix_loop(ts, self.pos as int, priority, exp@) == expression(ts, start, priority),
            ensures
                self.tokens == old(self).tokens,
                start < self.pos <= self.tokens.len(),
                infix_loop(ts, self.pos as int, priority, exp@) == expression(ts, start, priority),
                infix_loop(ts, self.pos as int, priority, exp@) == Ok::<(SpecExpr, int), SpecParseError>((exp@, self.pos as int)),
            decreases self.tokens.len() - self.pos,
        {
            let tok = &self.tokens[self.pos];
            if tok.kind() == TokenKind::Semicolon || priority.level() >= Priority::from_token(tok).level() {
                break;
            }
            exp = match self.parse_infix(exp) {
                Ok(e) => e,
                Err(e) => return Err(e),
            };
        }
        Ok(exp)
    }

    fn parse_prefix(&mut self) -> (r: Result<Expression, Error>)
        requires
            old(self).pos <= old(self).tokens.len(),
        ensures
            final(self).tokens == old(self).tokens,
            old(self).pos <= final(self).pos <= final(self).tokens.len(),
            r is Ok ==> old(self).pos < final(self).pos,
            parsed_expr(r, final(self).pos as int) == prefix(tokens_model(old(self).tokens@), old(self).pos as int),
            has_kind(tokens_model(old(self).tokens@), old(self).pos as int, TokenKind::RightBrace)
                ==> final(self).pos == old(self).pos,
        decreases old(self).tokens@.len() - old(self).pos, 2nat,
    {
        if self.pos >= self.tokens.len() {
            return Err(Error::EOF);
        }
        let tokens = self.tokens;
        let tok = &tokens[self.pos];
        match tok {
            Token::True | Token::False | Token::Identifier(_) | Token::Integer(_) | Token::Bang
            | Token::Minus | Token::LeftParen | Token::If => {},
            _ => return Err(Error::UnexpectedToken { got: tok.duplicate() }),
        }
        self.pos = self.pos + 1;
        match tok {
            Token::True => Ok(Expression::Boolean(true)),
            Token::False => Ok(Expression::Boolean(false)),
            Token::Identifier(s) => Ok(Expression::Identifier(s.clone())),
            Token::Integer(value) => Ok(Expression::Integer(*value)),
            Token::Bang | Token::Minus => {
                let operator = tok.duplicate();
                match self.parse_expression(Priority::Unary) {
                    Ok(expr) => Ok(Expression::Unary { operator, expression: Box::new(expr) }),
                    Err(e) => Err(e),
                }
            },
            Token::LeftParen => {
                // Reset the priority as if we were parsing an expression
                // from the beginning.
                let expr = match self.parse_expression(Priority::Lowest) {
                    Ok(e) => e,
                    Err(e) => return Err(e),
                };
                match self.expect_token(Token::RightParen) {
                    Ok(_) => Ok(expr),
                    Err(e) => Err(e),
                }
            },
            _ => self.parse_if(),
        }
    }

    fn parse_if(&mut self) -> (r: Result<Expression, Error>)
        requires
            old(self).pos <= old(self).tokens.len(),
        ensures
            final(self).tokens == old(self).tokens,
            old(self).pos <= final(self).pos <= final(self).tokens.len(),
            r is Ok ==> old(self).pos < final(self).pos,
            parsed_expr(r, final(self).pos as int) == if_expression(tokens_model(old(self).tokens@), old(self).pos as int),
        decreases old(self).tokens@.len() - old(self).pos, 1nat,
    {
        if let Err(e) = self.expect_token(Token::LeftParen) {
            return Err(e);
        }
        let cond = match self.parse_expression(Priority::Lowest) {
            Ok(e) => e,
            Err(e) => return Err(e),
        };
        if let Err(e) = self.expect_token(Token::RightParen) {
            return Err(e);
        }
        if let Err(e) = self.expect_token(Token::LeftBrace) {
            return Err(e);
        }
        let conseq = match self.parse_block() {
            Ok(stats) => stats,
            Err(e) => return Err(e),
        };
        if let Err(e) = self.expect_token(Token::RightBrace) {
            return Err(e);
        }
        let altern = if self.pos < self.tokens.len() && self.tokens[self.pos].kind() == TokenKind::Else {
            self.pos = self.pos + 1;
            if let Err(e) = self.expect_token(Token::LeftBrace) {
                return Err(e);
            }
            let stats = match self.parse_block() {
                Ok(stats) => stats,
                Err(e) => return Err(e),
            };
            if let Err(e) = self.expect_token(Token::RightBrace) {
                return Err(e);
            }
            Some(stats)
        } else {
            None
        };
        Ok(Expression::If { cond: Box::new(cond), conseq, altern })
    }

    /// Parses a statement block; a statement that cannot start because its
    /// first token is `}` ends the block, and that `}` is left in place.
    fn parse_block(&mut self) -> (r: Result<Vec<Statement>, Error>)
        requires
            old(self).pos <= old(self).tokens.len(),
        ensures
            final(self).tokens == old(self).tokens,
            old(self).pos <= final(self).pos <= final(self).tokens.len(),
            parsed_block(r, final(self).pos as int) == block(tokens_model(old(self).tokens@), old(self).pos as int),
        decreases old(self).tokens@.len() - old(self).pos, 6nat,
    {
        match self.parse_statements() {
            Ok(stats) => Ok(stats),
            Err(partial) => {
                if partial.start < self.tokens.len() && self.tokens[partial.start].kind() == TokenKind::RightBrace {
                    Ok(partial.statements)
                } else {
                    Err(partial.error)
                }
            },
        }
    }

    fn parse_infix(&mut self, left_expr: Expression) -> (r: Result<Expression, Error>)
        requires
            old(self).pos < old(self).tokens.len(),
            priority_of(old(self).tokens@[old(self).pos as int]@.kind).rank() > 0,
        ensures
            final(self).tokens == old(self).tokens,
            old(self).pos < final(self).pos <= final(self).tokens.len(),
            ({
                let ts = tokens_model(old(self).tokens@);
                let op = ts[old(self).pos as int];
                match expression(ts, old(self).pos + 1, priority_of(op.kind)) {
                    Err(e) => r is Err && r->Err_0@ == e,
                    Ok((right, p)) => r is Ok && final(self).pos == p && r->Ok_0@ == SpecExpr::Binary {
                        left: Box::new(left_expr@),
                        operator: op,
                        right: Box::new(right),
                    },
                }
            }),
        decreases old(self).tokens@.len() - old(self).pos, 1nat,
    {
        let tok = match self.next_token() {
            Ok(t) => t,
            Err(e) => return Err(e),
        };
        match tok {
            Token::Plus
            | Token::Minus
            | Token::Asterisk
            | Token::Slash
            | Token::GreaterThan
            | Token::LessThan
            | Token::Equal
            | Token::NotEqual => {
                let operator = tok.duplicate();
                match self.parse_expression(Priority::from_token(&operator)) {
                    Ok(right) => Ok(Expression::Binary {
                        left: Box::new(left_expr),
                        operator,
                        right: Box::new(right),
                    }),
                    Err(e) => Err(e),
                }
            },
            _ => Ok(left_expr),
        }
    }

    /// Consumes and returns the next token.
    fn next_token(&mut self) -> (r: Result<&'a Token, Error>)
        requires
            old(self).pos <= old(self).tokens.len(),
        ensures
            final(self).tokens == old(self).tokens,
            old(self).pos < old(self).tokens.len() ==> r is Ok && *r->Ok_0 == old(self).tokens@[old(self).pos as int]
                && final(self).pos == old(self).pos + 1,
            old(self).pos >= old(self).tokens.len() ==> r == Err::<&Token, Error>(Error::EOF) && final(self).pos == old(self).pos,
    {
        if self.pos < self.tokens.len() {
            let tokens = self.tokens;
            let tok = &tokens[self.pos];
            self.pos = self.pos + 1;
            Ok(tok)
        } else {
            Err(Error::EOF)
        }
    }

    /// Consumes the next token if its kind is that of `token` (payloads are
    /// not compared) and returns it; otherwise fails and consumes nothing.
    fn expect_token(&mut self, token: Token) -> (r: Result<&'a Token, Error>)
        requires
            old(self).pos <= old(self).tokens.len(),
            token@ == SpecToken::of_kind(token@.kind),
        ensures
            final(self).tokens == old(self).tokens,
            old(self).pos <= final(self).pos <= final(self).tokens.len(),
            parsed_token(r, final(self).pos as int) == expect(tokens_model(old(self).tokens@), old(self).pos as int, token@.kind),
            r is Ok ==> *r->Ok_0 == old(self).tokens@[old(self).pos as int],
            r is Err ==> final(self).pos == old(self).pos,
    {
        if self.pos >= self.tokens.len() {
            return Err(Error::EOF);
        }
        let tokens = self.tokens;
        let tok = &tokens[self.pos];
        if tok.kind() != token.kind() {
            return Err(Error::ExpectedToken { expected: token, got: tok.duplicate() });
        }
        self.pos = self.pos + 1;
        Ok(tok)
    }
}

} // verus!
