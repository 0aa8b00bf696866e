//! The abstract syntax tree the parser produces, its mathematical value,
//! and the parser's single failure channel.

use vstd::prelude::*;

use crate::token::{Object, ObjectV, Token, TokenV};

verus! {

/// An expression node.  The tree is strict: every node owns its children.
#[derive(Debug, PartialEq)]
pub enum Expression {
    /// A literal value.
    Literal(Object),
    /// A parenthesized expression.
    Grouping(Box<Expression>),
    /// A prefix operator applied to an operand; the token is the operator.
    Unary(Token, Box<Expression>),
    /// Left operand, operator token, right operand.
    Binary(Box<Expression>, Token, Box<Expression>),
    /// A variable read; the token is the identifier.
    Var(Token),
    /// Target identifier token and assigned value.
    Assignment(Token, Box<Expression>),
    /// Callee, closing-paren token (kept for later diagnostics), arguments.
    Call(Box<Expression>, Token, Vec<Expression>),
    /// The silent "no primary matched" sentinel: not an error, produced
    /// without consuming a token, and never inspected by the callers.
    Mark,
}

/// A statement node.
#[derive(Debug, PartialEq)]
pub enum Statement {
    /// A bare expression in statement position.
    Expression(Expression),
    /// `print` followed by the printed expression.
    Print(Expression),
    /// `var` declaration: identifier token and required initializer.
    Var(Token, Expression),
    /// `{ ... }`: the enclosed declarations.
    Block(Vec<Statement>),
    /// Condition, then-branch, and the syntactically optional else-branch.
    If(Expression, Box<Statement>, Option<Box<Statement>>),
    /// Name token, parameter identifier tokens, body declarations.
    Function(Token, Vec<Token>, Vec<Statement>),
}

/// The mathematical value of an `Expression`.
pub enum ExprV {
    Literal(ObjectV),
    Grouping(Box<ExprV>),
    Unary(TokenV, Box<ExprV>),
    Binary(Box<ExprV>, TokenV, Box<ExprV>),
    Var(TokenV),
    Assignment(TokenV, Box<ExprV>),
    Call(Box<ExprV>, TokenV, Seq<ExprV>),
    Mark,
}

/// The mathematical value of a `Statement`.
pub enum StmtV {
    Expression(ExprV),
    Print(ExprV),
    Var(TokenV, ExprV),
    Block(Seq<StmtV>),
    If(ExprV, Box<StmtV>, Option<Box<StmtV>>),
    Function(TokenV, Seq<TokenV>, Seq<StmtV>),
}

/// The mathematical value of an expression node.
pub open spec fn expr_view(e: Expression) -> ExprV
    decreases e,
{
    match e {
        Expression::Literal(o) => ExprV::Literal(o@),
        Expression::Grouping(inner) => ExprV::Grouping(Box::new(expr_view(*inner))),
        Expression::Unary(op, inner) => ExprV::Unary(op@, Box::new(expr_view(*inner))),
        Expression::Binary(l, op, r) => ExprV::Binary(
            Box::new(expr_view(*l)),
            op@,
            Box::new(expr_view(*r)),
        ),
        Expression::Var(t) => ExprV::Var(t@),
        Expression::Assignment(t, v) => ExprV::Assignment(t@, Box::new(expr_view(*v))),
        Expression::Call(callee, paren, args) => ExprV::Call(
            Box::new(expr_view(*callee)),
            paren@,
            exprs_view(args@),
        ),
        Expression::Mark => ExprV::Mark,
    }
}

/// The mathematical value of a sequence of expression nodes.
pub open spec fn exprs_view(s: Seq<Expression>) -> Seq<ExprV>
    decreases s,
{
    if s.len() == 0 {
        Seq::empty()
    } else {
        exprs_view(s.drop_last()).push(expr_view(s.last()))
    }
}

/// The mathematical value of a statement node.
pub open spec fn stmt_view(s: Statement) -> StmtV
    decreases s,
{
    match s {
        Statement::Expression(e) => StmtV::Expression(expr_view(e)),
        Statement::Print(e) => StmtV::Print(expr_view(e)),
        Statement::Var(t, e) => StmtV::Var(t@, expr_view(e)),
        Statement::Block(ss) => StmtV::Block(stmts_view(ss@)),
        Statement::If(c, t, e) => StmtV::If(
            expr_view(c),
            Box::new(stmt_view(*t)),
            match e {
                Option::Some(s) => Option::Some(Box::new(stmt_view(*s))),
                Option::None => Option::None,
            },
        ),
        Statement::Function(name, params, body) => StmtV::Function(
            name@,
            crate::token::toks_view(params@),
            stmts_view(body@),
        ),
    }
}

/// The mathematical value of a sequence of statement nodes.
pub open spec fn stmts_view(s: Seq<Statement>) -> Seq<StmtV>
    decreases s,
{
    if s.len() == 0 {
        Seq::empty()
    } else {
        stmts_view(s.drop_last()).push(stmt_view(s.last()))
    }
}

/// Appending an expression appends its value.
pub proof fn lemma_exprs_view_push(s: Seq<Expression>, e: Expression)
    ensures
        exprs_view(s.push(e)) == exprs_view(s).push(expr_view(e)),
{
    assert(s.push(e).drop_last() =~= s);
}

/// Appending a statement appends its value.
pub proof fn lemma_stmts_view_push(s: Seq<Statement>, st: Statement)
    ensures
        stmts_view(s.push(st)) == stmts_view(s).push(stmt_view(st)),
{
    assert(s.push(st).drop_last() =~= s);
}

/// The one failure surface of the parser: a syntax violation detected by a
/// failed mandatory-token consume, an invalid assignment target, or a cursor
/// that stopped advancing.  No partial tree accompanies a failure.
#[derive(Clone, Copy, Debug, PartialEq, Eq, Structural)]
pub enum ParseError {
    /// `)` missing after a parenthesized expression.
    ExpectedRightParenAfterExpression,
    /// `)` missing after a call's argument list.
    ExpectedRightParenAfterArguments,
    /// `(` missing after `if`.
    ExpectedLeftParenAfterIf,
    /// `)` missing after an `if` condition.
    ExpectedRightParenAfterCondition,
    /// `}` missing after a block.
    ExpectedRightBraceAfterBlock,
    /// Identifier missing after `function`.
    ExpectedFunctionName,
    /// `(` missing after a function's name.
    ExpectedLeftParenAfterFunctionName,
    /// Identifier missing in a parameter list.
    ExpectedParameterName,
    /// `)` missing after a parameter list.
    ExpectedRightParenAfterParameters,
    /// `{` missing before a function body.
    ExpectedLeftBraceBeforeFunctionBody,
    /// Identifier missing after `var`.
    ExpectedVariableName,
    /// `=` missing after a `var` declaration's name: an initializer is
    /// required.
    ExpectedInitializer,
    /// The left side of `=` is not a plain variable.
    InvalidAssignmentTarget,
    /// A statement position consumed no token: the bare `Mark` sentinel in
    /// statement position, on which parsing could make no further progress.
    Stuck,
}

impl ParseError {
    /// The diagnostic text of the failure, naming what was expected.
    pub fn message(&self) -> String {
        match self {
            ParseError::ExpectedRightParenAfterExpression => "expect ')' after expression".to_string(),
            ParseError::ExpectedRightParenAfterArguments => "expect ')' after arguments".to_string(),
            ParseError::ExpectedLeftParenAfterIf => "expect '(' after 'if'".to_string(),
            ParseError::ExpectedRightParenAfterCondition => "expect ')' after if condition".to_string(),
            ParseError::ExpectedRightBraceAfterBlock => "expected '}' after block.".to_string(),
            ParseError::ExpectedFunctionName => "expect function name".to_string(),
            ParseError::ExpectedLeftParenAfterFunctionName => "expect '(' after function name".to_string(),
            ParseError::ExpectedParameterName => "expect parameter name".to_string(),
            ParseError::ExpectedRightParenAfterParameters => "expect ')' after parameters".to_string(),
            ParseError::ExpectedLeftBraceBeforeFunctionBody => "expect '{' before function body".to_string(),
            ParseError::ExpectedVariableName => "expect var name".to_string(),
            ParseError::ExpectedInitializer => "var error".to_string(),
            ParseError::InvalidAssignmentTarget => "invalid assignment".to_string(),
            ParseError::Stuck => "expect statement".to_string(),
        }
    }
}

} // verus!
