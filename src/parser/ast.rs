use vstd::prelude::*;

use crate::lexer::{integer_string, integer_text, string_of, token_text, SpecToken, Token, TokenKind};

verus! {

/// A statement of a program.
#[derive(Debug, PartialEq, Eq)]
pub enum Statement {
    /// An expression statement. Although it may sound confusing,
    /// a statement like `5 + 10;` is legal in Monkey.
    Expression(Expression),
    Let { identifier: String, expression: Expression },
    Return(Expression),
}

/// How tightly an operator binds, from loosest to tightest.
#[derive(Clone, Copy, Debug, PartialEq, Eq, Structural, PartialOrd, Ord)]
pub enum Priority {
    Lowest,
    Equals,
    LessOrGreaterThan,
    Sum,
    Product,
    Unary,
    Call,
}

/// An expression tree; every node owns its children.
#[derive(Debug, PartialEq, Eq)]
pub enum Expression {
    /// Placeholder for an expression that is not captured.
    Placeholder,
    Boolean(bool),
    Identifier(String),
    Integer(i64),
    Unary { operator: Token, expression: Box<Expression> },
    Binary { left: Box<Expression>, operator: Token, right: Box<Expression> },
    If { cond: Box<Expression>, conseq: Vec<Statement>, altern: Option<Vec<Statement>> },
}

/// A program: its statements in program order.
#[derive(Debug, PartialEq, Eq)]
pub struct AST {
    statements: Vec<Statement>,
}

/// The mathematical model of an expression.
pub enum SpecExpr {
    Placeholder,
    Boolean(bool),
    Identifier(Seq<char>),
    Integer(i64),
    Unary { operator: SpecToken, expression: Box<SpecExpr> },
    Binary { left: Box<SpecExpr>, operator: SpecToken, right: Box<SpecExpr> },
    If { cond: Box<SpecExpr>, conseq: Seq<SpecStmt>, altern: Option<Seq<SpecStmt>> },
}

/// The mathematical model of a statement.
pub enum SpecStmt {
    Expression(SpecExpr),
    Let { identifier: Seq<char>, expression: SpecExpr },
    Return(SpecExpr),
}

/// The model of an expression tree.
pub open spec fn expr_model(e: Expression) -> SpecExpr
    decreases e, 0nat,
{
    match e {
        Expression::Placeholder => SpecExpr::Placeholder,
        Expression::Boolean(b) => SpecExpr::Boolean(b),
        Expression::Identifier(s) => SpecExpr::Identifier(s@),
        Expression::Integer(v) => SpecExpr::Integer(v),
        Expression::Unary { operator, expression } => SpecExpr::Unary {
            operator: operator@,
            expression: Box::new(expr_model(*expression)),
        },
        Expression::Binary { left, operator, right } => SpecExpr::Binary {
            left: Box::new(expr_model(*left)),
            operator: operator@,
            right: Box::new(expr_model(*right)),
        },
        Expression::If { cond, conseq, altern } => SpecExpr::If {
            cond: Box::new(expr_model(*cond)),
            conseq: stmts_model(conseq@),
            altern: match altern {
                Some(a) => Some(stmts_model(a@)),
                None => None,
            },
        },
    }
}

/// The model of a statement.
pub open spec fn stmt_model(s: Statement) -> SpecStmt
    decreases s, 0nat,
{
    match s {
        Statement::Expression(e) => SpecStmt::Expression(expr_model(e)),
        Statement::Let { identifier, expression } => SpecStmt::Let {
            identifier: identifier@,
            expression: expr_model(expression),
        },
        Statement::Return(e) => SpecStmt::Return(expr_model(e)),
    }
}

/// The models of a sequence of statements, in order.
pub open spec fn stmts_model(s: Seq<Statement>) -> Seq<SpecStmt>
    decreases s, 0nat,
{
    if s.len() == 0 {
        Seq::empty()
    } else {
        stmts_model(s.subrange(0, s.len() - 1)).push(stmt_model(s[s.len() - 1]))
    }
}

/// The text of an expression: each node in parentheses, operators and
/// literals written as in source, an `if` as `if <cond> <statements>` with
/// ` else <statements>` when it has an alternative.
pub open spec fn expr_text(e: SpecExpr) -> Seq<char>
    decreases e, 0nat,
{
    let inner = match e {
        SpecExpr::Placeholder => Seq::empty(),
        SpecExpr::Boolean(b) => if b {
            seq!['t', 'r', 'u', 'e']
        } else {
            seq!['f', 'a', 'l', 's', 'e']
        },
        SpecExpr::Identifier(name) => name,
        SpecExpr::Integer(v) => integer_text(v as int),
        SpecExpr::Unary { operator, expression } => token_text(operator) + expr_text(*expression),
        SpecExpr::Binary { left, operator, right } => expr_text(*left) + token_text(operator)
            + expr_text(*right),
        SpecExpr::If { cond, conseq, altern } => seq!['i', 'f', ' '] + expr_text(*cond) + seq![' ']
            + stmts_text(conseq) + match altern {
            Some(a) => seq![' ', 'e', 'l', 's', 'e', ' '] + stmts_text(a),
            None => Seq::empty(),
        },
    };
    seq!['('] + inner + seq![')']
}

/// The text of a statement: an expression's text, `let <name> = <text>` or
/// `return <text>`.
pub open spec fn stmt_text(s: SpecStmt) -> Seq<char>
    decreases s, 0nat,
{
    match s {
        SpecStmt::Expression(e) => expr_text(e),
        SpecStmt::Let { identifier, expression } => seq!['l', 'e', 't', ' '] + identifier + seq![' ', '=', ' ']
            + expr_text(expression),
        SpecStmt::Return(e) => seq!['r', 'e', 't', 'u', 'r', 'n', ' '] + expr_text(e),
    }
}

/// The texts of statements, one after another.
pub open spec fn stmts_text(s: Seq<SpecStmt>) -> Seq<char>
    decreases s, 0nat,
{
    if s.len() == 0 {
        Seq::empty()
    } else {
        stmts_text(s.subrange(0, s.len() - 1)) + stmt_text(s[s.len() - 1])
    }
}

proof fn lemma_stmts_text_prefix(v: Seq<Statement>, i: int)
    requires
        0 <= i < v.len(),
    ensures
        stmts_text(stmts_model(v.subrange(0, i + 1))) == stmts_text(stmts_model(v.subrange(0, i)))
            + stmt_text(v[i]@),
{
    let p = v.subrange(0, i + 1);
    assert(p.subrange(0, i) =~= v.subrange(0, i));
    let m = stmts_model(p);
    assert(m == stmts_model(v.subrange(0, i)).push(stmt_model(v[i])));
    assert(m.subrange(0, m.len() - 1) =~= stmts_model(v.subrange(0, i)));
}

/// Appends the text of an expression to `out`.
fn write_expr(e: &Expression, out: &mut String)
    ensures
        final(out)@ == old(out)@ + expr_text(e@),
    decreases *e, 0nat,
{
    let ghost start = out@;
    out.push('(');
    match e {
        Expression::Placeholder => {},
        Expression::Boolean(b) => {
            if *b {
                out.append(string_of(&['t', 'r', 'u', 'e']).as_str());
            } else {
                out.append(string_of(&['f', 'a', 'l', 's', 'e']).as_str());
            }
        },
        Expression::Identifier(name) => out.append(name.as_str()),
        Expression::Integer(v) => out.append(integer_string(*v).as_str()),
        Expression::Unary { operator, expression } => {
            out.append(operator.to_string().as_str());
            write_expr(expression, out);
        },
        Expression::Binary { left, operator, right } => {
            write_expr(left, out);
            out.append(operator.to_string().as_str());
            write_expr(right, out);
        },
        Expression::If { cond, conseq, altern } => {
            out.append(string_of(&['i', 'f', ' ']).as_str());
            write_expr(cond, out);
            out.push(' ');
            write_stmts(conseq, out);
            match altern {
                Some(a) => {
                    out.append(string_of(&[' ', 'e', 'l', 's', 'e', ' ']).as_str());
                    write_stmts(a, out);
                },
                None => {},
            }
        },
    }
    out.push(')');
    assert(out@ =~= start + expr_text(e@));
}

/// Appends the text of a statement to `out`.
fn write_stmt(s: &Statement, out: &mut String)
    ensures
        final(out)@ == old(out)@ + stmt_text(s@),
    decreases *s, 0nat,
{
    let ghost start = out@;
    match s {
        Statement::Expression(e) => write_expr(e, out),
        Statement::Let { identifier, expression } => {
            out.append(string_of(&['l', 'e', 't', ' ']).as_str());
            out.append(identifier.as_str());
            out.append(string_of(&[' ', '=', ' ']).as_str());
            write_expr(expression, out);
        },
        Statement::Return(e) => {
            out.append(string_of(&['r', 'e', 't', 'u', 'r', 'n', ' ']).as_str());
            write_expr(e, out);
        },
    }
    assert(out@ =~= start + stmt_text(s@));
}

/// Appends the texts of statements to `out`, one after another.
fn write_stmts(v: &Vec<Statement>, out: &mut String)
    ensures
        final(out)@ == old(out)@ + stmts_text(stmts_model(v@)),
    decreases *v, 0nat,
{
    let ghost start = out@;
    let mut i: usize = 0;
    assert(v@.subrange(0, 0) =~= Seq::<Statement>::empty());
    assert(start + stmts_text(stmts_model(v@.subrange(0, 0))) =~= start);
    while i < v.len()
        invariant
            i <= v@.len(),
            out@ == start + stmts_text(stmts_model(v@.subrange(0, i as int))),
        decreases v@.len() - i,
    {
        proof {
            vstd::std_specs::vec::axiom_vec_index_decreases(*v, i as int);
            lemma_stmts_text_prefix(v@, i as int);
        }
        write_stmt(&v[i], out);
        i = i + 1;
        assert(out@ =~= start + stmts_text(stmts_model(v@.subrange(0, i as int))));
    }
    assert(v@.subrange(0, v@.len() as int) =~= v@);
}

impl Expression {
    /// The text of this expression (see [`expr_text`]).
    pub fn to_string(&self) -> (s: String)
        ensures
            s@ == expr_text(self@),
    {
        let mut s = String::new();
        write_expr(self, &mut s);
        assert(s@ =~= expr_text(self@));
        s
    }
}

impl Statement {
    /// The text of this statement (see [`stmt_text`]).
    pub fn to_string(&self) -> (s: String)
        ensures
            s@ == stmt_text(self@),
    {
        let mut s = String::new();
        write_stmt(self, &mut s);
        assert(s@ =~= stmt_text(self@));
        s
    }
}

impl View for Expression {
    type V = SpecExpr;

    open spec fn view(&self) -> SpecExpr {
        expr_model(*self)
    }
}

impl View for Statement {
    type V = SpecStmt;

    open spec fn view(&self) -> SpecStmt {
        stmt_model(*self)
    }
}

impl View for AST {
    type V = Seq<SpecStmt>;

    closed spec fn view(&self) -> Seq<SpecStmt> {
        stmts_model(self.statements@)
    }
}

/// The priority of a token in infix position; tokens without an infix
/// meaning have the lowest.
pub open spec fn priority_of(k: TokenKind) -> Priority {
    match k {
        TokenKind::Asterisk | TokenKind::Slash => Priority::Product,
        TokenKind::LessThan | TokenKind::GreaterThan => Priority::LessOrGreaterThan,
        TokenKind::Plus | TokenKind::Minus => Priority::Sum,
        TokenKind::Equal | TokenKind::NotEqual => Priority::Equals,
        _ => Priority::Lowest,
    }
}

impl Priority {
    /// The place of a priority in the order `Lowest < ... < Call`.
    pub open spec fn rank(self) -> nat {
        match self {
            Priority::Lowest => 0,
            Priority::Equals => 1,
            Priority::LessOrGreaterThan => 2,
            Priority::Sum => 3,
            Priority::Product => 4,
            Priority::Unary => 5,
            Priority::Call => 6,
        }
    }

    /// The place of this priority in the order `Lowest < ... < Call`.
    pub fn level(&self) -> (r: u8)
        ensures
            r == self.rank(),
    {
        match self {
            Priority::Lowest => 0,
            Priority::Equals => 1,
            Priority::LessOrGreaterThan => 2,
            Priority::Sum => 3,
            Priority::Product => 4,
            Priority::Unary => 5,
            Priority::Call => 6,
        }
    }

    /// Returns the Token's priority in an expression.
    pub fn from_token(tok: &Token) -> (p: Self)
        ensures
            p == priority_of(tok@.kind),
    {
        match tok {
            Token::Asterisk | Token::Slash => Self::Product,
            Token::LessThan | Token::GreaterThan => Self::LessOrGreaterThan,
            Token::Plus | Token::Minus => Self::Sum,
            Token::Equal | Token::NotEqual => Self::Equals,
            _ => Self::Lowest,
        }
    }
}

impl Default for AST {
    /// The empty program.
    fn default() -> (ast: Self)
        ensures
            ast@ == Seq::<SpecStmt>::empty(),
    {
        Self { statements: Vec::new() }
    }
}

impl AST {
    /// A program made of the given statements.
    pub fn new(st: Vec<Statement>) -> (ast: Self)
        ensures
            ast@ == stmts_model(st@),
    {
        Self { statements: st }
    }

    /// Appends a statement at the end of the program.
    pub fn push(&mut self, st: Statement)
        ensures
            final(self)@ == old(self)@.push(st@),
    {
        let ghost before = self.statements@;
        self.statements.push(st);
        assert(self.statements@.subrange(0, self.statements@.len() - 1) =~= before);
    }
}

} // verus!
