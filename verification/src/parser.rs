//! The recursive-descent parser: a positional cursor over the input tokens
//! and one executable routine per non-terminal of the grammar.
//!
//! Every routine is proved to return exactly what the corresponding spec
//! function of [`crate::grammar`] defines, and to move the cursor exactly as
//! far.  The unfolding lemmas in this module restate each spec function's
//! defining case split; they are the only places those definitions are
//! revealed.

use vstd::prelude::*;

use crate::ast::{
    Expression, ExprV, ParseError, Statement, StmtV, expr_view, exprs_view, stmt_view, stmts_view,
};
use crate::grammar::{
    kind_at, spec_arguments, spec_arguments_rest, spec_assignment, spec_block_items, spec_call,
    spec_call_rest, spec_comparison, spec_comparison_rest, spec_declaration, spec_equality,
    spec_equality_rest, spec_expression, spec_factor, spec_factor_rest, spec_finish_call,
    spec_function_decl, spec_if_stmt, spec_params, spec_params_rest, spec_primary, spec_program,
    spec_statement, spec_term, spec_term_rest, spec_unary, spec_var_decl, Parsed,
};
use crate::token::{Object, ObjectV, Token, TokenType, TokenV, toks_view};

verus! {

// The spec functions above are opaque: their mutual recursion would
// otherwise be unfolded en masse on every query.  Each lemma below restates
// one function's defining case split, and is the only place that function is
// revealed; the routines' proofs use the lemmas alone.

/// `spec_expression` is `spec_assignment`.
#[verifier::rlimit(100)]
proof fn lemma_expression_unfold(toks: Seq<TokenV>, pos: int)
    ensures
        spec_expression(toks, pos) == spec_assignment(toks, pos),
{
    reveal(spec_assignment);
    reveal(spec_expression);
}

/// The case split of `spec_assignment`.
#[verifier::rlimit(100)]
proof fn lemma_assignment_unfold(toks: Seq<TokenV>, pos: int)
    ensures
        spec_equality(toks, pos) matches Parsed::Failed(e) ==> spec_assignment(toks, pos)
            == Parsed::<ExprV>::Failed(e),
        spec_equality(toks, pos) matches Parsed::Found(lhs, p2) ==> (
            (!kind_at(toks, p2, TokenType::Equal) ==> spec_assignment(toks, pos)
                == Parsed::<ExprV>::Found(lhs, p2))
            && ((kind_at(toks, p2, TokenType::Equal) && pos <= p2) ==> (
                (spec_assignment(toks, p2 + 1) matches Parsed::Failed(e2)
                    ==> spec_assignment(toks, pos) == Parsed::<ExprV>::Failed(e2))
                && (spec_assignment(toks, p2 + 1) matches Parsed::Found(v, p3) ==> (
                    (lhs matches ExprV::Var(name) ==> spec_assignment(toks, pos)
                        == Parsed::<ExprV>::Found(ExprV::Assignment(name, Box::new(v)), p3))
                    && (!(lhs is Var) ==> spec_assignment(toks, pos)
                        == Parsed::<ExprV>::Failed(ParseError::InvalidAssignmentTarget))))))),
{
    reveal(spec_assignment);
    reveal(spec_equality);
}

/// The case split of `spec_equality`.
#[verifier::rlimit(100)]
proof fn lemma_equality_unfold(toks: Seq<TokenV>, pos: int)
    ensures
        spec_comparison(toks, pos) matches Parsed::Failed(e) ==> spec_equality(toks, pos)
            == Parsed::<ExprV>::Failed(e),
        spec_comparison(toks, pos) matches Parsed::Found(v, p2) ==> (pos <= p2 <= toks.len()
            ==> spec_equality(toks, pos) == spec_equality_rest(toks, p2, v)),
{
    reveal(spec_comparison);
    reveal(spec_equality);
    reveal(spec_equality_rest);
}

/// The case split of `spec_equality_rest`.
#[verifier::rlimit(100)]
proof fn lemma_equality_rest_unfold(toks: Seq<TokenV>, pos: int, lhs: ExprV)
    ensures
        (!kind_at(toks, pos, TokenType::BangEqual) && !kind_at(toks, pos, TokenType::EqualEqual))
            ==> spec_equality_rest(toks, pos, lhs) == Parsed::<ExprV>::Found(lhs, pos),
        (kind_at(toks, pos, TokenType::BangEqual) || kind_at(toks, pos, TokenType::EqualEqual))
            ==> (
            (spec_comparison(toks, pos + 1) matches Parsed::Failed(e)
                ==> spec_equality_rest(toks, pos, lhs) == Parsed::<ExprV>::Failed(e))
            && (spec_comparison(toks, pos + 1) matches Parsed::Found(rhs, p3) ==> (pos < p3
                <= toks.len() ==> spec_equality_rest(toks, pos, lhs) == spec_equality_rest(
                toks,
                p3,
                ExprV::Binary(Box::new(lhs), toks[pos], Box::new(rhs)),
            )))),
{
    reveal(spec_comparison);
    reveal(spec_equality_rest);
}

/// The case split of `spec_comparison`.
#[verifier::rlimit(100)]
proof fn lemma_comparison_unfold(toks: Seq<TokenV>, pos: int)
    ensures
        spec_term(toks, pos) matches Parsed::Failed(e) ==> spec_comparison(toks, pos)
            == Parsed::<ExprV>::Failed(e),
        spec_term(toks, pos) matches Parsed::Found(v, p2) ==> (pos <= p2 <= toks.len()
            ==> spec_comparison(toks, pos) == spec_comparison_rest(toks, p2, v)),
{
    reveal(spec_comparison);
    reveal(spec_comparison_rest);
    reveal(spec_term);
}

/// The case split of `spec_comparison_rest`.
#[verifier::rlimit(100)]
proof fn lemma_comparison_rest_unfold(toks: Seq<TokenV>, pos: int, lhs: ExprV)
    ensures
        (!kind_at(toks, pos, TokenType::Greater) && !kind_at(toks, pos, TokenType::GreaterEqual)
            && !kind_at(toks, pos, TokenType::Less) && !kind_at(toks, pos, TokenType::LessEqual))
            ==> spec_comparison_rest(toks, pos, lhs) == Parsed::<ExprV>::Found(lhs, pos),
        (kind_at(toks, pos, TokenType::Greater) || kind_at(toks, pos, TokenType::GreaterEqual)
            || kind_at(toks, pos, TokenType::Less) || kind_at(toks, pos, TokenType::LessEqual))
            ==> (
            (spec_term(toks, pos + 1) matches Parsed::Failed(e)
                ==> spec_comparison_rest(toks, pos, lhs) == Parsed::<ExprV>::Failed(e))
            && (spec_term(toks, pos + 1) matches Parsed::Found(rhs, p3) ==> (pos < p3
                <= toks.len() ==> spec_comparison_rest(toks, pos, lhs) == spec_comparison_rest(
                toks,
                p3,
                ExprV::Binary(Box::new(lhs), toks[pos], Box::new(rhs)),
            )))),
{
    reveal(spec_comparison_rest);
    reveal(spec_term);
}

/// The case split of `spec_term`.
#[verifier::rlimit(100)]
proof fn lemma_term_unfold(toks: Seq<TokenV>, pos: int)
    ensures
        spec_factor(toks, pos) matches Parsed::Failed(e) ==> spec_term(toks, pos)
            == Parsed::<ExprV>::Failed(e),
        spec_factor(toks, pos) matches Parsed::Found(v, p2) ==> (pos <= p2 <= toks.len()
            ==> spec_term(toks, pos) == spec_term_rest(toks, p2, v)),
{
    reveal(spec_factor);
    reveal(spec_term);
    reveal(spec_term_rest);
}

/// The case split of `spec_term_rest`.
#[verifier::rlimit(100)]
proof fn lemma_term_rest_unfold(toks: Seq<TokenV>, pos: int, lhs: ExprV)
    ensures
        (!kind_at(toks, pos, TokenType::Minus) && !kind_at(toks, pos, TokenType::Plus))
            ==> spec_term_rest(toks, pos, lhs) == Parsed::<ExprV>::Found(lhs, pos),
        (kind_at(toks, pos, TokenType::Minus) || kind_at(toks, pos, TokenType::Plus)) ==> (
            (spec_factor(toks, pos + 1) matches Parsed::Failed(e)
                ==> spec_term_rest(toks, pos, lhs) == Parsed::<ExprV>::Failed(e))
            && (spec_factor(toks, pos + 1) matches Parsed::Found(rhs, p3) ==> (pos < p3
                <= toks.len() ==> spec_term_rest(toks, pos, lhs) == spec_term_rest(
                toks,
                p3,
                ExprV::Binary(Box::new(lhs), toks[pos], Box::new(rhs)),
            )))),
{
    reveal(spec_factor);
    reveal(spec_term_rest);
}

/// The case split of `spec_factor`.
#[verifier::rlimit(100)]
proof fn lemma_factor_unfold(toks: Seq<TokenV>, pos: int)
    ensures
        spec_unary(toks, pos) matches Parsed::Failed(e) ==> spec_factor(toks, pos)
            == Parsed::<ExprV>::Failed(e),
        spec_unary(toks, pos) matches Parsed::Found(v, p2) ==> (pos <= p2 <= toks.len()
            ==> spec_factor(toks, pos) == spec_factor_rest(toks, p2, v)),
{
    reveal(spec_factor);
    reveal(spec_factor_rest);
    reveal(spec_unary);
}

/// The case split of `spec_factor_rest`.
#[verifier::rlimit(100)]
proof fn lemma_factor_rest_unfold(toks: Seq<TokenV>, pos: int, lhs: ExprV)
    ensures
        (!kind_at(toks, pos, TokenType::Slash) && !kind_at(toks, pos, TokenType::Star))
            ==> spec_factor_rest(toks, pos, lhs) == Parsed::<ExprV>::Found(lhs, pos),
        (kind_at(toks, pos, TokenType::Slash) || kind_at(toks, pos, TokenType::Star)) ==> (
            (spec_unary(toks, pos + 1) matches Parsed::Failed(e)
                ==> spec_factor_rest(toks, pos, lhs) == Parsed::<ExprV>::Failed(e))
            && (spec_unary(toks, pos + 1) matches Parsed::Found(rhs, p3) ==> (pos < p3
                <= toks.len() ==> spec_factor_rest(toks, pos, lhs) == spec_factor_rest(
                toks,
                p3,
                ExprV::Binary(Box::new(lhs), toks[pos], Box::new(rhs)),
            )))),
{
    reveal(spec_factor_rest);
    reveal(spec_unary);
}

/// The case split of `spec_unary`.
#[verifier::rlimit(100)]
proof fn lemma_unary_unfold(toks: Seq<TokenV>, pos: int)
    ensures
        (!kind_at(toks, pos, TokenType::Bang) && !kind_at(toks, pos, TokenType::Minus))
            ==> spec_unary(toks, pos) == spec_call(toks, pos),
        (kind_at(toks, pos, TokenType::Bang) || kind_at(toks, pos, TokenType::Minus)) ==> (
            (spec_unary(toks, pos + 1) matches Parsed::Failed(e) ==> spec_unary(toks, pos)
                == Parsed::<ExprV>::Failed(e))
            && (spec_unary(toks, pos + 1) matches Parsed::Found(rhs, p2) ==> spec_unary(toks, pos)
                == Parsed::<ExprV>::Found(ExprV::Unary(toks[pos], Box::new(rhs)), p2))),
{
    reveal(spec_call);
    reveal(spec_unary);
}

/// The case split of `spec_call`.
#[verifier::rlimit(100)]
proof fn lemma_call_unfold(toks: Seq<TokenV>, pos: int)
    ensures
        spec_primary(toks, pos) matches Parsed::Failed(e) ==> spec_call(toks, pos)
            == Parsed::<ExprV>::Failed(e),
        spec_primary(toks, pos) matches Parsed::Found(v, p2) ==> (pos <= p2 <= toks.len()
            ==> spec_call(toks, pos) == spec_call_rest(toks, p2, v)),
{
    reveal(spec_call);
    reveal(spec_call_rest);
    reveal(spec_primary);
}

/// The case split of `spec_call_rest`.
#[verifier::rlimit(100)]
proof fn lemma_call_rest_unfold(toks: Seq<TokenV>, pos: int, callee: ExprV)
    ensures
        !kind_at(toks, pos, TokenType::LeftParen) ==> spec_call_rest(toks, pos, callee)
            == Parsed::<ExprV>::Found(callee, pos),
        kind_at(toks, pos, TokenType::LeftParen) ==> (
            (spec_finish_call(toks, pos + 1) matches Parsed::Failed(e)
                ==> spec_call_rest(toks, pos, callee) == Parsed::<ExprV>::Failed(e))
            && (spec_finish_call(toks, pos + 1) matches Parsed::Found(ap, p2) ==> (pos < p2
                <= toks.len() ==> spec_call_rest(toks, pos, callee) == spec_call_rest(
                toks,
                p2,
                ExprV::Call(Box::new(callee), ap.1, ap.0),
            )))),
{
    reveal(spec_call_rest);
    reveal(spec_finish_call);
}

/// The case split of `spec_finish_call`.
#[verifier::rlimit(100)]
proof fn lemma_finish_call_unfold(toks: Seq<TokenV>, pos: int)
    ensures
        kind_at(toks, pos, TokenType::RightParen) ==> spec_finish_call(toks, pos)
            == Parsed::<(Seq<ExprV>, TokenV)>::Found((Seq::empty(), toks[pos]), pos + 1),
        !kind_at(toks, pos, TokenType::RightParen) ==> (
            (spec_arguments(toks, pos) matches Parsed::Failed(e) ==> spec_finish_call(toks, pos)
                == Parsed::<(Seq<ExprV>, TokenV)>::Failed(e))
            && (spec_arguments(toks, pos) matches Parsed::Found(args, p2) ==> (
                (kind_at(toks, p2, TokenType::RightParen) ==> spec_finish_call(toks, pos)
                    == Parsed::<(Seq<ExprV>, TokenV)>::Found((args, toks[p2]), p2 + 1))
                && (!kind_at(toks, p2, TokenType::RightParen) ==> spec_finish_call(toks, pos)
                    == Parsed::<(Seq<ExprV>, TokenV)>::Failed(
                    ParseError::ExpectedRightParenAfterArguments,
                ))))),
{
    reveal(spec_arguments);
    reveal(spec_finish_call);
}

/// The case split of `spec_arguments`.
#[verifier::rlimit(100)]
proof fn lemma_arguments_unfold(toks: Seq<TokenV>, pos: int)
    ensures
        spec_expression(toks, pos) matches Parsed::Failed(e) ==> spec_arguments(toks, pos)
            == Parsed::<Seq<ExprV>>::Failed(e),
        spec_expression(toks, pos) matches Parsed::Found(v, p2) ==> (pos <= p2 <= toks.len()
            ==> spec_arguments(toks, pos) == spec_arguments_rest(toks, p2, seq![v])),
{
    reveal(spec_arguments);
    reveal(spec_arguments_rest);
    reveal(spec_expression);
}

/// The case split of `spec_arguments_rest`.
#[verifier::rlimit(100)]
proof fn lemma_arguments_rest_unfold(toks: Seq<TokenV>, pos: int, acc: Seq<ExprV>)
    ensures
        !kind_at(toks, pos, TokenType::Comma) ==> spec_arguments_rest(toks, pos, acc)
            == Parsed::<Seq<ExprV>>::Found(acc, pos),
        kind_at(toks, pos, TokenType::Comma) ==> (
            (spec_expression(toks, pos + 1) matches Parsed::Failed(e)
                ==> spec_arguments_rest(toks, pos, acc) == Parsed::<Seq<ExprV>>::Failed(e))
            && (spec_expression(toks, pos + 1) matches Parsed::Found(v, p2) ==> (pos < p2
                <= toks.len() ==> spec_arguments_rest(toks, pos, acc) == spec_arguments_rest(
                toks,
                p2,
                acc.push(v),
            )))),
{
    reveal(spec_arguments_rest);
    reveal(spec_expression);
}

/// The case split of `spec_primary`.
#[verifier::rlimit(100)]
proof fn lemma_primary_unfold(toks: Seq<TokenV>, pos: int)
    ensures
        kind_at(toks, pos, TokenType::False) ==> spec_primary(toks, pos)
            == Parsed::<ExprV>::Found(ExprV::Literal(ObjectV::Bool(false)), pos + 1),
        kind_at(toks, pos, TokenType::True) ==> spec_primary(toks, pos)
            == Parsed::<ExprV>::Found(ExprV::Literal(ObjectV::Bool(true)), pos + 1),
        (kind_at(toks, pos, TokenType::Number) || kind_at(toks, pos, TokenType::Str))
            ==> spec_primary(toks, pos) == Parsed::<ExprV>::Found(
            ExprV::Literal(toks[pos].literal),
            pos + 1,
        ),
        kind_at(toks, pos, TokenType::Identifier) ==> spec_primary(toks, pos)
            == Parsed::<ExprV>::Found(ExprV::Var(toks[pos]), pos + 1),
        (!kind_at(toks, pos, TokenType::False) && !kind_at(toks, pos, TokenType::True)
            && !kind_at(toks, pos, TokenType::Number) && !kind_at(toks, pos, TokenType::Str)
            && !kind_at(toks, pos, TokenType::LeftParen) && !kind_at(
            toks,
            pos,
            TokenType::Identifier,
        )) ==> spec_primary(toks, pos) == Parsed::<ExprV>::Found(ExprV::Mark, pos),
        kind_at(toks, pos, TokenType::LeftParen) ==> (
            (spec_expression(toks, pos + 1) matches Parsed::Failed(e) ==> spec_primary(toks, pos)
                == Parsed::<ExprV>::Failed(e))
            && (spec_expression(toks, pos + 1) matches Parsed::Found(v, p2) ==> (
                (kind_at(toks, p2, TokenType::RightParen) ==> spec_primary(toks, pos)
                    == Parsed::<ExprV>::Found(ExprV::Grouping(Box::new(v)), p2 + 1))
                && (!kind_at(toks, p2, TokenType::RightParen) ==> spec_primary(toks, pos)
                    == Parsed::<ExprV>::Failed(ParseError::ExpectedRightParenAfterExpression))))),
{
    reveal(spec_expression);
    reveal(spec_primary);
}

/// The case split of `spec_declaration`.
#[verifier::rlimit(100)]
proof fn lemma_declaration_unfold(toks: Seq<TokenV>, pos: int)
    ensures
        kind_at(toks, pos, TokenType::Function) ==> spec_declaration(toks, pos)
            == spec_function_decl(toks, pos + 1),
        kind_at(toks, pos, TokenType::Var) ==> spec_declaration(toks, pos) == spec_var_decl(
            toks,
            pos + 1,
        ),
        (!kind_at(toks, pos, TokenType::Function) && !kind_at(toks, pos, TokenType::Var))
            ==> spec_declaration(toks, pos) == spec_statement(toks, pos),
{
    reveal(spec_declaration);
    reveal(spec_function_decl);
    reveal(spec_statement);
    reveal(spec_var_decl);
}

/// The case split of `spec_statement`.
#[verifier::rlimit(100)]
proof fn lemma_statement_unfold(toks: Seq<TokenV>, pos: int)
    ensures
        kind_at(toks, pos, TokenType::If) ==> spec_statement(toks, pos) == spec_if_stmt(
            toks,
            pos + 1,
        ),
        kind_at(toks, pos, TokenType::Print) ==> (
            (spec_expression(toks, pos + 1) matches Parsed::Failed(e) ==> spec_statement(toks, pos)
                == Parsed::<StmtV>::Failed(e))
            && (spec_expression(toks, pos + 1) matches Parsed::Found(v, p2)
                ==> spec_statement(toks, pos) == Parsed::<StmtV>::Found(StmtV::Print(v), p2))),
        kind_at(toks, pos, TokenType::LeftBrace) ==> (
            (spec_block_items(toks, pos + 1) matches Parsed::Failed(e)
                ==> spec_statement(toks, pos) == Parsed::<StmtV>::Failed(e))
            && (spec_block_items(toks, pos + 1) matches Parsed::Found(ss, p2)
                ==> spec_statement(toks, pos) == Parsed::<StmtV>::Found(StmtV::Block(ss), p2))),
        (!kind_at(toks, pos, TokenType::If) && !kind_at(toks, pos, TokenType::Print) && !kind_at(
            toks,
            pos,
            TokenType::LeftBrace,
        )) ==> (
            (spec_expression(toks, pos) matches Parsed::Failed(e) ==> spec_statement(toks, pos)
                == Parsed::<StmtV>::Failed(e))
            && (spec_expression(toks, pos) matches Parsed::Found(v, p2)
                ==> spec_statement(toks, pos) == Parsed::<StmtV>::Found(
                StmtV::Expression(v),
                p2,
            ))),
{
    reveal(spec_block_items);
    reveal(spec_expression);
    reveal(spec_if_stmt);
    reveal(spec_statement);
}

/// The case split of `spec_if_stmt`.
#[verifier::rlimit(100)]
proof fn lemma_if_stmt_unfold(toks: Seq<TokenV>, pos: int)
    ensures
        !kind_at(toks, pos, TokenType::LeftParen) ==> spec_if_stmt(toks, pos)
            == Parsed::<StmtV>::Failed(ParseError::ExpectedLeftParenAfterIf),
        kind_at(toks, pos, TokenType::LeftParen) ==> (
            (spec_expression(toks, pos + 1) matches Parsed::Failed(e) ==> spec_if_stmt(toks, pos)
                == Parsed::<StmtV>::Failed(e))
            && (spec_expression(toks, pos + 1) matches Parsed::Found(cond, p2) ==> (
                (!kind_at(toks, p2, TokenType::RightParen) ==> spec_if_stmt(toks, pos)
                    == Parsed::<StmtV>::Failed(ParseError::ExpectedRightParenAfterCondition))
                && ((kind_at(toks, p2, TokenType::RightParen) && pos <= p2) ==> (
                    (spec_statement(toks, p2 + 1) matches Parsed::Failed(e)
                        ==> spec_if_stmt(toks, pos) == Parsed::<StmtV>::Failed(e))
                    && (spec_statement(toks, p2 + 1) matches Parsed::Found(thn, p3) ==> (
                        (!kind_at(toks, p3, TokenType::Else) ==> spec_if_stmt(toks, pos)
                            == Parsed::<StmtV>::Found(
                            StmtV::If(cond, Box::new(thn), Option::None),
                            p3,
                        ))
                        && ((kind_at(toks, p3, TokenType::Else) && pos <= p3) ==> (
                            (spec_statement(toks, p3 + 1) matches Parsed::Failed(e)
                                ==> spec_if_stmt(toks, pos) == Parsed::<StmtV>::Failed(e))
                            && (spec_statement(toks, p3 + 1) matches Parsed::Found(els, p4)
                                ==> spec_if_stmt(toks, pos) == Parsed::<StmtV>::Found(
                                StmtV::If(cond, Box::new(thn), Option::Some(Box::new(els))),
                                p4,
                            ))))))))))),
{
    reveal(spec_expression);
    reveal(spec_if_stmt);
    reveal(spec_statement);
}

/// The case split of `spec_var_decl`.
#[verifier::rlimit(100)]
proof fn lemma_var_decl_unfold(toks: Seq<TokenV>, pos: int)
    ensures
        !kind_at(toks, pos, TokenType::Identifier) ==> spec_var_decl(toks, pos)
            == Parsed::<StmtV>::Failed(ParseError::ExpectedVariableName),
        (kind_at(toks, pos, TokenType::Identifier) && !kind_at(toks, pos + 1, TokenType::Equal))
            ==> spec_var_decl(toks, pos) == Parsed::<StmtV>::Failed(ParseError::ExpectedInitializer),
        (kind_at(toks, pos, TokenType::Identifier) && kind_at(toks, pos + 1, TokenType::Equal))
            ==> (
            (spec_expression(toks, pos + 2) matches Parsed::Failed(e) ==> spec_var_decl(toks, pos)
                == Parsed::<StmtV>::Failed(e))
            && (spec_expression(toks, pos + 2) matches Parsed::Found(v, p2)
                ==> spec_var_decl(toks, pos) == Parsed::<StmtV>::Found(
                StmtV::Var(toks[pos], v),
                p2,
            ))),
{
    reveal(spec_expression);
    reveal(spec_var_decl);
}

/// The case split of `spec_function_decl`.
#[verifier::rlimit(100)]
proof fn lemma_function_decl_unfold(toks: Seq<TokenV>, pos: int)
    ensures
        !kind_at(toks, pos, TokenType::Identifier) ==> spec_function_decl(toks, pos)
            == Parsed::<StmtV>::Failed(ParseError::ExpectedFunctionName),
        (kind_at(toks, pos, TokenType::Identifier) && !kind_at(
            toks,
            pos + 1,
            TokenType::LeftParen,
        )) ==> spec_function_decl(toks, pos) == Parsed::<StmtV>::Failed(
            ParseError::ExpectedLeftParenAfterFunctionName,
        ),
        (kind_at(toks, pos, TokenType::Identifier) && kind_at(toks, pos + 1, TokenType::LeftParen))
            ==> (
            (spec_params(toks, pos + 2) matches Parsed::Failed(e) ==> spec_function_decl(toks, pos)
                == Parsed::<StmtV>::Failed(e))
            && (spec_params(toks, pos + 2) matches Parsed::Found(ps, p2) ==> (
                (!kind_at(toks, p2, TokenType::RightParen) ==> spec_function_decl(toks, pos)
                    == Parsed::<StmtV>::Failed(ParseError::ExpectedRightParenAfterParameters))
                && ((kind_at(toks, p2, TokenType::RightParen) && !kind_at(
                    toks,
                    p2 + 1,
                    TokenType::LeftBrace,
                )) ==> spec_function_decl(toks, pos) == Parsed::<StmtV>::Failed(
                    ParseError::ExpectedLeftBraceBeforeFunctionBody,
                ))
                && ((kind_at(toks, p2, TokenType::RightParen) && kind_at(
                    toks,
                    p2 + 1,
                    TokenType::LeftBrace,
                ) && pos <= p2) ==> (
                    (spec_block_items(toks, p2 + 2) matches Parsed::Failed(e)
                        ==> spec_function_decl(toks, pos) == Parsed::<StmtV>::Failed(e))
                    && (spec_block_items(toks, p2 + 2) matches Parsed::Found(body, p3)
                        ==> spec_function_decl(toks, pos) == Parsed::<StmtV>::Found(
                        StmtV::Function(toks[pos], ps, body),
                        p3,
                    ))))))),
{
    reveal(spec_block_items);
    reveal(spec_function_decl);
    reveal(spec_params);
}

/// The case split of `spec_params`.
#[verifier::rlimit(100)]
proof fn lemma_params_unfold(toks: Seq<TokenV>, pos: int)
    ensures
        kind_at(toks, pos, TokenType::RightParen) ==> spec_params(toks, pos)
            == Parsed::<Seq<TokenV>>::Found(Seq::empty(), pos),
        (!kind_at(toks, pos, TokenType::RightParen) && !kind_at(toks, pos, TokenType::Identifier))
            ==> spec_params(toks, pos) == Parsed::<Seq<TokenV>>::Failed(
            ParseError::ExpectedParameterName,
        ),
        (!kind_at(toks, pos, TokenType::RightParen) && kind_at(toks, pos, TokenType::Identifier))
            ==> spec_params(toks, pos) == spec_params_rest(toks, pos + 1, seq![toks[pos]]),
{
    reveal(spec_params);
    reveal(spec_params_rest);
}

/// The case split of `spec_params_rest`.
#[verifier::rlimit(100)]
proof fn lemma_params_rest_unfold(toks: Seq<TokenV>, pos: int, acc: Seq<TokenV>)
    ensures
        !kind_at(toks, pos, TokenType::Comma) ==> spec_params_rest(toks, pos, acc)
            == Parsed::<Seq<TokenV>>::Found(acc, pos),
        (kind_at(toks, pos, TokenType::Comma) && !kind_at(toks, pos + 1, TokenType::Identifier))
            ==> spec_params_rest(toks, pos, acc) == Parsed::<Seq<TokenV>>::Failed(
            ParseError::ExpectedParameterName,
        ),
        (kind_at(toks, pos, TokenType::Comma) && kind_at(toks, pos + 1, TokenType::Identifier))
            ==> spec_params_rest(toks, pos, acc) == spec_params_rest(
            toks,
            pos + 2,
            acc.push(toks[pos + 1]),
        ),
{
    reveal(spec_params_rest);
}

/// The case split of `spec_block_items`.
#[verifier::rlimit(100)]
proof fn lemma_block_items_unfold(toks: Seq<TokenV>, pos: int)
    ensures
        kind_at(toks, pos, TokenType::RightBrace) ==> spec_block_items(toks, pos)
            == Parsed::<Seq<StmtV>>::Found(Seq::empty(), pos + 1),
        (!kind_at(toks, pos, TokenType::RightBrace) && pos >= toks.len())
            ==> spec_block_items(toks, pos) == Parsed::<Seq<StmtV>>::Failed(
            ParseError::ExpectedRightBraceAfterBlock,
        ),
        (!kind_at(toks, pos, TokenType::RightBrace) && 0 <= pos < toks.len()) ==> (
            (spec_declaration(toks, pos) matches Parsed::Failed(e)
                ==> spec_block_items(toks, pos) == Parsed::<Seq<StmtV>>::Failed(e))
            && (spec_declaration(toks, pos) matches Parsed::Found(s, p2) ==> (
                (!(pos < p2 && p2 <= toks.len()) ==> spec_block_items(toks, pos)
                    == Parsed::<Seq<StmtV>>::Failed(ParseError::Stuck))
                && ((pos < p2 && p2 <= toks.len()) ==> spec_block_items(toks, pos) == (
                match spec_block_items(toks, p2) {
                    Parsed::Failed(e2) => Parsed::<Seq<StmtV>>::Failed(e2),
                    Parsed::Found(rest, p3) => Parsed::<Seq<StmtV>>::Found(seq![s] + rest, p3),
                }))))),
{
    reveal(spec_block_items);
    reveal(spec_declaration);
}

/// The case split of `spec_program`.
#[verifier::rlimit(100)]
proof fn lemma_program_unfold(toks: Seq<TokenV>, pos: int)
    ensures
        pos >= toks.len() ==> spec_program(toks, pos) == Parsed::<Seq<StmtV>>::Found(
            Seq::empty(),
            pos,
        ),
        pos < toks.len() ==> (
            (spec_declaration(toks, pos) matches Parsed::Failed(e) ==> spec_program(toks, pos)
                == Parsed::<Seq<StmtV>>::Failed(e))
            && (spec_declaration(toks, pos) matches Parsed::Found(s, p2) ==> (
                (!(pos < p2 && p2 <= toks.len()) ==> spec_program(toks, pos)
                    == Parsed::<Seq<StmtV>>::Failed(ParseError::Stuck))
                && ((pos < p2 && p2 <= toks.len()) ==> spec_program(toks, pos) == (
                match spec_program(toks, p2) {
                    Parsed::Failed(e2) => Parsed::<Seq<StmtV>>::Failed(e2),
                    Parsed::Found(rest, p3) => Parsed::<Seq<StmtV>>::Found(seq![s] + rest, p3),
                }))))),
{
    reveal(spec_declaration);
    reveal(spec_program);
}


/// The positional cursor over the input tokens, and the grammar routines.
///
/// `current` only ever moves forward within one `parse` call, and stays
/// within `0 ..= tokens.len()`; there is no end-of-file sentinel.
pub struct Parser {
    tokens: Vec<Token>,
    current: usize,
}

impl Parser {
    /// The mathematical value of the input tokens.
    pub closed spec fn toks(self) -> Seq<TokenV> {
        toks_view(self.tokens@)
    }

    /// The cursor position.
    pub closed spec fn pos(self) -> int {
        self.current as int
    }

    /// The cursor never passes the end of the input.
    pub closed spec fn wf(self) -> bool {
        self.current <= self.tokens.len()
    }

    /// A parser over `tokens`, with the cursor at the first token.
    pub fn new(tokens: Vec<Token>) -> (p: Parser)
        ensures
            p.toks() == toks_view(tokens@),
            p.pos() == 0,
            p.wf(),
    {
        Parser { tokens, current: 0 }
    }

    /// True iff the cursor is one past the last token.
    fn is_at_end(&self) -> (b: bool)
        ensures
            b == (self.pos() == self.toks().len()),
    {
        self.current == self.tokens.len()
    }

    /// The token under the cursor.
    fn peek(&self) -> (t: &Token)
        requires
            self.pos() < self.toks().len(),
        ensures
            t@ == self.toks()[self.pos()],
    {
        &self.tokens[self.current]
    }

    /// The token just consumed.
    fn previous(&self) -> (t: &Token)
        requires
            1 <= self.pos() <= self.toks().len(),
        ensures
            t@ == self.toks()[self.pos() - 1],
    {
        &self.tokens[self.current - 1]
    }

    /// True iff the cursor stands on a token of kind `k`.
    fn check(&self, k: TokenType) -> (b: bool)
        requires
            self.wf(),
        ensures
            b == kind_at(self.toks(), self.pos(), k),
    {
        if self.is_at_end() {
            false
        } else {
            self.peek().kind == k
        }
    }

    /// Moves the cursor forward by one token, if any is left.
    #[verifier::rlimit(100)]
    fn advance(&mut self)
        requires
            old(self).wf(),
        ensures
            final(self).wf(),
            final(self).toks() == old(self).toks(),
            old(self).pos() < old(self).toks().len() ==> final(self).pos() == old(self).pos() + 1,
            old(self).pos() >= old(self).toks().len() ==> final(self).pos() == old(self).pos(),
    {
        if !self.is_at_end() {
            self.current = self.current + 1;
        }
    }

    /// Consumes the token under the cursor if it has kind `k`.
    #[verifier::rlimit(100)]
    fn expect(&mut self, k: TokenType) -> (b: bool)
        requires
            old(self).wf(),
        ensures
            final(self).wf(),
            final(self).toks() == old(self).toks(),
            b == kind_at(old(self).toks(), old(self).pos(), k),
            b ==> final(self).pos() == old(self).pos() + 1,
            !b ==> final(self).pos() == old(self).pos(),
    {
        if self.check(k) {
            self.advance();
            true
        } else {
            false
        }
    }

    /// Consumes the token under the cursor if it has either given kind.
    #[verifier::rlimit(100)]
    fn expect2(&mut self, k1: TokenType, k2: TokenType) -> (b: bool)
        requires
            old(self).wf(),
        ensures
            final(self).wf(),
            final(self).toks() == old(self).toks(),
            b == (kind_at(old(self).toks(), old(self).pos(), k1)
                || kind_at(old(self).toks(), old(self).pos(), k2)),
            b ==> final(self).pos() == old(self).pos() + 1,
            !b ==> final(self).pos() == old(self).pos(),
    {
        if self.check(k1) || self.check(k2) {
            self.advance();
            true
        } else {
            false
        }
    }

    /// Consumes the token under the cursor if it has any of the four kinds.
    #[verifier::rlimit(100)]
    fn expect4(&mut self, k1: TokenType, k2: TokenType, k3: TokenType, k4: TokenType) -> (b: bool)
        requires
            old(self).wf(),
        ensures
            final(self).wf(),
            final(self).toks() == old(self).toks(),
            b == (kind_at(old(self).toks(), old(self).pos(), k1)
                || kind_at(old(self).toks(), old(self).pos(), k2)
                || kind_at(old(self).toks(), old(self).pos(), k3)
                || kind_at(old(self).toks(), old(self).pos(), k4)),
            b ==> final(self).pos() == old(self).pos() + 1,
            !b ==> final(self).pos() == old(self).pos(),
    {
        if self.check(k1) || self.check(k2) || self.check(k3) || self.check(k4) {
            self.advance();
            true
        } else {
            false
        }
    }

    /// Consumes a mandatory token of kind `k`, or fails with `err`.
    #[verifier::rlimit(100)]
    fn consume(&mut self, k: TokenType, err: ParseError) -> (r: Result<Token, ParseError>)
        requires
            old(self).wf(),
        ensures
            final(self).wf(),
            final(self).toks() == old(self).toks(),
            kind_at(old(self).toks(), old(self).pos(), k) ==> (r matches Ok(t)
                && t@ == old(self).toks()[old(self).pos()]
                && final(self).pos() == old(self).pos() + 1),
            !kind_at(old(self).toks(), old(self).pos(), k) ==> (r matches Err(e) && e == err
                && final(self).pos() == old(self).pos()),
    {
        if self.check(k) {
            let t = self.peek().clone();
            self.advance();
            Ok(t)
        } else {
            Err(err)
        }
    }


    /// `parse := declaration* ⟂` — the whole input, as a statement list.
    ///
    /// Where a statement position consumes nothing (the bare `Mark`
    /// sentinel), parsing stops with `ParseError::Stuck` instead of looping.
    #[verifier::loop_isolation(false)]
    #[verifier::rlimit(100)]
    pub fn parse(&mut self) -> (r: Result<Vec<Statement>, ParseError>)
        requires
            old(self).wf(),
        ensures
            final(self).wf(),
            final(self).toks() == old(self).toks(),
            final(self).pos() >= old(self).pos(),
            match r {
                Ok(v) => spec_program(old(self).toks(), old(self).pos())
                    == Parsed::<Seq<StmtV>>::Found(stmts_view(v@), final(self).pos()),
                Err(err) => spec_program(old(self).toks(), old(self).pos())
                    == Parsed::<Seq<StmtV>>::Failed(err),
            },
    {
        let ghost toks0 = self.toks();
        let ghost pos0: int = self.pos();
        let mut statements: Vec<Statement> = Vec::new();
        proof {
            assert(stmts_view(Seq::<Statement>::empty()) =~= Seq::<StmtV>::empty());
            match spec_program(toks0, pos0) {
                Parsed::Found(rest, p) => {
                    assert(Seq::<StmtV>::empty() + rest =~= rest);
                },
                Parsed::Failed(e) => {},
            }
        }
        while !self.is_at_end()
            invariant
                self.wf(),
                self.toks() == toks0,
                pos0 <= self.pos() <= toks0.len(),
                match spec_program(toks0, self.pos()) {
                    Parsed::Found(rest, p) => spec_program(toks0, pos0)
                        == Parsed::<Seq<StmtV>>::Found(stmts_view(statements@) + rest, p),
                    Parsed::Failed(e) => spec_program(toks0, pos0) == Parsed::<Seq<StmtV>>::Failed(
                        e,
                    ),
                },
            decreases toks0.len() - self.pos(),
        {
            let ghost bcur: int = self.pos();
            let ghost svec0 = statements@;
            let before: usize = self.current;
            let s = match self.declaration() {
                Ok(s) => s,
                Err(err) => {
                    proof {
                        lemma_program_unfold(toks0, bcur);
                    }
                    return Err(err);
                },
            };
            if self.current == before {
                proof {
                    lemma_program_unfold(toks0, bcur);
                }
                return Err(ParseError::Stuck);
            }
            let ghost sv = stmt_view(s);
            statements.push(s);
            proof {
                lemma_program_unfold(toks0, bcur);
                assert(statements@.drop_last() =~= svec0);
                assert(stmts_view(statements@) == stmts_view(svec0).push(sv));
                match spec_program(toks0, self.pos()) {
                    Parsed::Found(rest, p) => {
                        assert(stmts_view(svec0) + (seq![sv] + rest) =~= stmts_view(statements@)
                            + rest);
                    },
                    Parsed::Failed(e) => {},
                }
            }
        }
        proof {
            lemma_program_unfold(toks0, self.pos());
            assert(stmts_view(statements@) + Seq::<StmtV>::empty() =~= stmts_view(statements@));
        }
        Ok(statements)
    }

    /// `declaration := function-decl | var-decl | statement`.
    #[verifier::rlimit(100)]
    fn declaration(&mut self) -> (r: Result<Statement, ParseError>)
        requires
            old(self).wf(),
        ensures
            final(self).wf(),
            final(self).toks() == old(self).toks(),
            final(self).pos() >= old(self).pos(),
            match r {
                Ok(s) => spec_declaration(old(self).toks(), old(self).pos())
                    == Parsed::<StmtV>::Found(stmt_view(s), final(self).pos())
                    && (final(self).pos() == old(self).pos() ==> stmt_view(s)
                        == StmtV::Expression(ExprV::Mark)),
                Err(err) => spec_declaration(old(self).toks(), old(self).pos())
                    == Parsed::<StmtV>::Failed(err),
            },
        decreases self.toks().len() - self.pos(), 90int,
    {
        let ghost toks0 = self.toks();
        let ghost pos0: int = self.pos();
        proof {
            lemma_declaration_unfold(toks0, pos0);
        }
        if self.expect(TokenType::Function) {
            return self.function();
        }
        if self.expect(TokenType::Var) {
            return self.var();
        }
        self.statement()
    }

    /// `statement := if-stmt | print-stmt | block | expression-stmt`.
    #[verifier::rlimit(100)]
    fn statement(&mut self) -> (r: Result<Statement, ParseError>)
        requires
            old(self).wf(),
        ensures
            final(self).wf(),
            final(self).toks() == old(self).toks(),
            final(self).pos() >= old(self).pos(),
            match r {
                Ok(s) => spec_statement(old(self).toks(), old(self).pos())
                    == Parsed::<StmtV>::Found(stmt_view(s), final(self).pos())
                    && (final(self).pos() == old(self).pos() ==> stmt_view(s)
                        == StmtV::Expression(ExprV::Mark)),
                Err(err) => spec_statement(old(self).toks(), old(self).pos())
                    == Parsed::<StmtV>::Failed(err),
            },
        decreases self.toks().len() - self.pos(), 85int,
    {
        let ghost toks0 = self.toks();
        let ghost pos0: int = self.pos();
        proof {
            lemma_statement_unfold(toks0, pos0);
        }
        if self.expect(TokenType::If) {
            return self.ifstmt();
        }
        if self.expect(TokenType::Print) {
            return self.print();
        }
        if self.expect(TokenType::LeftBrace) {
            let items = match self.block() {
                Ok(v) => v,
                Err(err) => return Err(err),
            };
            return Ok(Statement::Block(items));
        }
        self.expression_statement()
    }

    /// The declarations of a block, through the mandatory closing `}`.
    #[verifier::loop_isolation(false)]
    #[verifier::rlimit(100)]
    fn block(&mut self) -> (r: Result<Vec<Statement>, ParseError>)
        requires
            old(self).wf(),
        ensures
            final(self).wf(),
            final(self).toks() == old(self).toks(),
            final(self).pos() >= old(self).pos(),
            match r {
                Ok(v) => spec_block_items(old(self).toks(), old(self).pos())
                    == Parsed::<Seq<StmtV>>::Found(stmts_view(v@), final(self).pos()),
                Err(err) => spec_block_items(old(self).toks(), old(self).pos())
                    == Parsed::<Seq<StmtV>>::Failed(err),
            },
        decreases self.toks().len() - self.pos(), 95int,
    {
        let ghost toks0 = self.toks();
        let ghost pos0: int = self.pos();
        let mut statements: Vec<Statement> = Vec::new();
        proof {
            assert(stmts_view(Seq::<Statement>::empty()) =~= Seq::<StmtV>::empty());
            match spec_block_items(toks0, pos0) {
                Parsed::Found(rest, p) => {
                    assert(Seq::<StmtV>::empty() + rest =~= rest);
                },
                Parsed::Failed(e) => {},
            }
        }
        while !self.check(TokenType::RightBrace) && !self.is_at_end()
            invariant
                self.wf(),
                self.toks() == toks0,
                pos0 <= self.pos() <= toks0.len(),
                match spec_block_items(toks0, self.pos()) {
                    Parsed::Found(rest, p) => spec_block_items(toks0, pos0)
                        == Parsed::<Seq<StmtV>>::Found(stmts_view(statements@) + rest, p),
                    Parsed::Failed(e) => spec_block_items(toks0, pos0)
                        == Parsed::<Seq<StmtV>>::Failed(e),
                },
            decreases toks0.len() - self.pos(), 96int,
        {
            let ghost bcur: int = self.pos();
            let ghost svec0 = statements@;
            let before: usize = self.current;
            let s = match self.declaration() {
                Ok(s) => s,
                Err(err) => {
                    proof {
                        lemma_block_items_unfold(toks0, bcur);
                    }
                    return Err(err);
                },
            };
            if self.current == before {
                proof {
                    lemma_block_items_unfold(toks0, bcur);
                }
                return Err(ParseError::Stuck);
            }
            let ghost sv = stmt_view(s);
            statements.push(s);
            proof {
                lemma_block_items_unfold(toks0, bcur);
                assert(statements@.drop_last() =~= svec0);
                assert(stmts_view(statements@) == stmts_view(svec0).push(sv));
                match spec_block_items(toks0, self.pos()) {
                    Parsed::Found(rest, p) => {
                        assert(stmts_view(svec0) + (seq![sv] + rest) =~= stmts_view(statements@)
                            + rest);
                    },
                    Parsed::Failed(e) => {},
                }
            }
        }
        proof {
            lemma_block_items_unfold(toks0, self.pos());
            assert(stmts_view(statements@) + Seq::<StmtV>::empty() =~= stmts_view(statements@));
        }
        match self.consume(TokenType::RightBrace, ParseError::ExpectedRightBraceAfterBlock) {
            Ok(_) => Ok(statements),
            Err(err) => Err(err),
        }
    }

    /// `if-stmt := "(" expression ")" statement ("else" statement)?`,
    /// entered with `if` consumed; a following `else` always binds here.
    #[verifier::rlimit(100)]
    fn ifstmt(&mut self) -> (r: Result<Statement, ParseError>)
        requires
            old(self).wf(),
        ensures
            final(self).wf(),
            final(self).toks() == old(self).toks(),
            final(self).pos() >= old(self).pos(),
            match r {
                Ok(s) => spec_if_stmt(old(self).toks(), old(self).pos())
                    == Parsed::<StmtV>::Found(stmt_view(s), final(self).pos())
                    && final(self).pos() > old(self).pos(),
                Err(err) => spec_if_stmt(old(self).toks(), old(self).pos())
                    == Parsed::<StmtV>::Failed(err),
            },
        decreases self.toks().len() - self.pos(), 80int,
    {
        let ghost toks0 = self.toks();
        let ghost pos0: int = self.pos();
        proof {
            lemma_if_stmt_unfold(toks0, pos0);
        }
        match self.consume(TokenType::LeftParen, ParseError::ExpectedLeftParenAfterIf) {
            Ok(_) => (),
            Err(err) => return Err(err),
        };
        let condition = match self.expression() {
            Ok(e) => e,
            Err(err) => return Err(err),
        };
        let ghost p2: int = self.pos();
        match self.consume(TokenType::RightParen, ParseError::ExpectedRightParenAfterCondition) {
            Ok(_) => (),
            Err(err) => return Err(err),
        };
        let then_branch = match self.statement() {
            Ok(s) => s,
            Err(err) => return Err(err),
        };
        let ghost p3: int = self.pos();
        if self.expect(TokenType::Else) {
            let else_branch = match self.statement() {
                Ok(s) => s,
                Err(err) => return Err(err),
            };
            return Ok(
                Statement::If(
                    condition,
                    Box::new(then_branch),
                    Option::Some(Box::new(else_branch)),
                ),
            );
        }
        Ok(Statement::If(condition, Box::new(then_branch), Option::None))
    }

    /// `print-stmt := expression`, entered with `print` consumed.
    #[verifier::rlimit(100)]
    fn print(&mut self) -> (r: Result<Statement, ParseError>)
        requires
            old(self).wf(),
        ensures
            final(self).wf(),
            final(self).toks() == old(self).toks(),
            final(self).pos() >= old(self).pos(),
            match r {
                Ok(s) => (spec_expression(old(self).toks(), old(self).pos()) matches Parsed::Found(
                    v,
                    p,
                ) && stmt_view(s) == StmtV::Print(v) && final(self).pos() == p),
                Err(err) => spec_expression(old(self).toks(), old(self).pos())
                    == Parsed::<ExprV>::Failed(err),
            },
        decreases self.toks().len() - self.pos(), 52int,
    {
        let value = match self.expression() {
            Ok(e) => e,
            Err(err) => return Err(err),
        };
        Ok(Statement::Print(value))
    }

    /// `var-decl := IDENT "=" expression`, entered with `var` consumed; the
    /// initializer is required.
    #[verifier::rlimit(100)]
    fn var(&mut self) -> (r: Result<Statement, ParseError>)
        requires
            old(self).wf(),
        ensures
            final(self).wf(),
            final(self).toks() == old(self).toks(),
            final(self).pos() >= old(self).pos(),
            match r {
                Ok(s) => spec_var_decl(old(self).toks(), old(self).pos())
                    == Parsed::<StmtV>::Found(stmt_view(s), final(self).pos())
                    && final(self).pos() > old(self).pos(),
                Err(err) => spec_var_decl(old(self).toks(), old(self).pos())
                    == Parsed::<StmtV>::Failed(err),
            },
        decreases self.toks().len() - self.pos(), 80int,
    {
        let ghost toks0 = self.toks();
        let ghost pos0: int = self.pos();
        proof {
            lemma_var_decl_unfold(toks0, pos0);
        }
        let name = match self.consume(TokenType::Identifier, ParseError::ExpectedVariableName) {
            Ok(t) => t,
            Err(err) => return Err(err),
        };
        if self.expect(TokenType::Equal) {
            let value = match self.expression() {
                Ok(e) => e,
                Err(err) => return Err(err),
            };
            return Ok(Statement::Var(name, value));
        }
        Err(ParseError::ExpectedInitializer)
    }

    /// `function-decl := IDENT "(" params? ")" block`, entered with
    /// `function` consumed.
    #[verifier::loop_isolation(false)]
    #[verifier::rlimit(100)]
    fn function(&mut self) -> (r: Result<Statement, ParseError>)
        requires
            old(self).wf(),
        ensures
            final(self).wf(),
            final(self).toks() == old(self).toks(),
            final(self).pos() >= old(self).pos(),
            match r {
                Ok(s) => spec_function_decl(old(self).toks(), old(self).pos())
                    == Parsed::<StmtV>::Found(stmt_view(s), final(self).pos())
                    && final(self).pos() > old(self).pos(),
                Err(err) => spec_function_decl(old(self).toks(), old(self).pos())
                    == Parsed::<StmtV>::Failed(err),
            },
        decreases self.toks().len() - self.pos(), 80int,
    {
        let ghost toks0 = self.toks();
        let ghost pos0: int = self.pos();
        proof {
            lemma_function_decl_unfold(toks0, pos0);
        }
        let name = match self.consume(TokenType::Identifier, ParseError::ExpectedFunctionName) {
            Ok(t) => t,
            Err(err) => return Err(err),
        };
        match self.consume(TokenType::LeftParen, ParseError::ExpectedLeftParenAfterFunctionName) {
            Ok(_) => (),
            Err(err) => return Err(err),
        };
        let mut parameters: Vec<Token> = Vec::new();
        proof {
            lemma_params_unfold(toks0, pos0 + 2);
            assert(toks_view(Seq::<Token>::empty()) =~= Seq::<TokenV>::empty());
        }
        if !self.check(TokenType::RightParen) {
            let head = match self.consume(TokenType::Identifier, ParseError::ExpectedParameterName)
                {
                Ok(t) => t,
                Err(err) => return Err(err),
            };
            parameters.push(head);
            proof {
                assert(parameters@.drop_last() =~= Seq::<Token>::empty());
                assert(toks_view(parameters@) =~= seq![toks0[pos0 + 2]]);
            }
            while self.check(TokenType::Comma)
                invariant
                    self.wf(),
                    self.toks() == toks0,
                    pos0 + 2 <= self.pos() <= toks0.len(),
                    spec_params(toks0, pos0 + 2) == spec_params_rest(
                        toks0,
                        self.pos(),
                        toks_view(parameters@),
                    ),
                decreases toks0.len() - self.pos(),
            {
                let ghost cpos: int = self.pos();
                let ghost acc0 = toks_view(parameters@);
                let ghost pvec0 = parameters@;
                self.advance();
                let ptok = match self.consume(
                    TokenType::Identifier,
                    ParseError::ExpectedParameterName,
                ) {
                    Ok(t) => t,
                    Err(err) => {
                        proof {
                            lemma_params_rest_unfold(toks0, cpos, acc0);
                        }
                        return Err(err);
                    },
                };
                parameters.push(ptok);
                proof {
                    lemma_params_rest_unfold(toks0, cpos, acc0);
                    assert(parameters@.drop_last() =~= pvec0);
                    assert(toks_view(parameters@) =~= acc0.push(toks0[cpos + 1]));
                }
            }
            proof {
                lemma_params_rest_unfold(toks0, self.pos(), toks_view(parameters@));
            }
        }
        let ghost pend: int = self.pos();
        match self.consume(TokenType::RightParen, ParseError::ExpectedRightParenAfterParameters) {
            Ok(_) => (),
            Err(err) => return Err(err),
        };
        match self.consume(TokenType::LeftBrace, ParseError::ExpectedLeftBraceBeforeFunctionBody) {
            Ok(_) => (),
            Err(err) => return Err(err),
        };
        let body = match self.block() {
            Ok(v) => v,
            Err(err) => return Err(err),
        };
        Ok(Statement::Function(name, parameters, body))
    }

    /// `expression-stmt := expression` — a bare expression in statement
    /// position; there is no terminator.
    #[verifier::rlimit(100)]
    fn expression_statement(&mut self) -> (r: Result<Statement, ParseError>)
        requires
            old(self).wf(),
        ensures
            final(self).wf(),
            final(self).toks() == old(self).toks(),
            final(self).pos() >= old(self).pos(),
            match r {
                Ok(s) => (spec_expression(old(self).toks(), old(self).pos()) matches Parsed::Found(
                    v,
                    p,
                ) && stmt_view(s) == StmtV::Expression(v) && final(self).pos() == p && (v
                    == ExprV::Mark <==> final(self).pos() == old(self).pos())),
                Err(err) => spec_expression(old(self).toks(), old(self).pos())
                    == Parsed::<ExprV>::Failed(err),
            },
        decreases self.toks().len() - self.pos(), 84int,
    {
        let value = match self.expression() {
            Ok(e) => e,
            Err(err) => return Err(err),
        };
        Ok(Statement::Expression(value))
    }

    /// `expression := assignment`.
    #[verifier::rlimit(100)]
    fn expression(&mut self) -> (r: Result<Expression, ParseError>)
        requires
            old(self).wf(),
        ensures
            final(self).wf(),
            final(self).toks() == old(self).toks(),
            final(self).pos() >= old(self).pos(),
            match r {
                Ok(e) => spec_expression(old(self).toks(), old(self).pos())
                    == Parsed::<ExprV>::Found(expr_view(e), final(self).pos())
                    && (expr_view(e) == ExprV::Mark <==> final(self).pos() == old(self).pos()),
                Err(err) => spec_expression(old(self).toks(), old(self).pos())
                    == Parsed::<ExprV>::Failed(err),
            },
        decreases self.toks().len() - self.pos(), 50int,
    {
        let ghost toks0 = self.toks();
        let ghost pos0: int = self.pos();
        proof {
            lemma_expression_unfold(toks0, pos0);
        }
        self.assignment()
    }

    /// `assignment := equality ( "=" assignment )?` — the left side is read
    /// as a full equality first and must turn out to be a plain variable.
    #[verifier::rlimit(100)]
    fn assignment(&mut self) -> (r: Result<Expression, ParseError>)
        requires
            old(self).wf(),
        ensures
            final(self).wf(),
            final(self).toks() == old(self).toks(),
            final(self).pos() >= old(self).pos(),
            match r {
                Ok(e) => spec_assignment(old(self).toks(), old(self).pos())
                    == Parsed::<ExprV>::Found(expr_view(e), final(self).pos())
                    && (expr_view(e) == ExprV::Mark <==> final(self).pos() == old(self).pos()),
                Err(err) => spec_assignment(old(self).toks(), old(self).pos())
                    == Parsed::<ExprV>::Failed(err),
            },
        decreases self.toks().len() - self.pos(), 45int,
    {
        let ghost toks0 = self.toks();
        let ghost pos0: int = self.pos();
        proof {
            lemma_assignment_unfold(toks0, pos0);
        }
        let expr = match self.equality() {
            Ok(e) => e,
            Err(err) => return Err(err),
        };
        let ghost lhs0 = expr_view(expr);
        if self.expect(TokenType::Equal) {
            let value = match self.assignment() {
                Ok(e) => e,
                Err(err) => return Err(err),
            };
            if let Expression::Var(token) = expr {
                return Ok(Expression::Assignment(token, Box::new(value)));
            }
            proof {
                assert(!(lhs0 is Var));
            }
            return Err(ParseError::InvalidAssignmentTarget);
        }
        Ok(expr)
    }

    /// `equality := comparison ( ("!=" | "==") comparison )*`.
    #[verifier::loop_isolation(false)]
    #[verifier::rlimit(100)]
    fn equality(&mut self) -> (r: Result<Expression, ParseError>)
        requires
            old(self).wf(),
        ensures
            final(self).wf(),
            final(self).toks() == old(self).toks(),
            final(self).pos() >= old(self).pos(),
            match r {
                Ok(e) => spec_equality(old(self).toks(), old(self).pos())
                    == Parsed::<ExprV>::Found(expr_view(e), final(self).pos())
                    && (expr_view(e) == ExprV::Mark <==> final(self).pos() == old(self).pos()),
                Err(err) => spec_equality(old(self).toks(), old(self).pos())
                    == Parsed::<ExprV>::Failed(err),
            },
        decreases self.toks().len() - self.pos(), 40int,
    {
        let ghost toks0 = self.toks();
        let ghost pos0: int = self.pos();
        let mut expr = match self.comparison() {
            Ok(e) => e,
            Err(err) => {
                proof {
                    lemma_equality_unfold(toks0, pos0);
                }
                return Err(err);
            },
        };
        proof {
            lemma_equality_unfold(toks0, pos0);
        }
        while self.check(TokenType::BangEqual) || self.check(TokenType::EqualEqual)
            invariant
                self.wf(),
                self.toks() == toks0,
                pos0 <= self.pos() <= toks0.len(),
                spec_equality(toks0, pos0) == spec_equality_rest(toks0, self.pos(), expr_view(expr)),
                (expr_view(expr) == ExprV::Mark <==> self.pos() == pos0),
            decreases toks0.len() - self.pos(),
        {
            let ghost cpos: int = self.pos();
            let ghost lhs0 = expr_view(expr);
            self.advance();
            let op = self.previous().clone();
            let right = match self.comparison() {
                Ok(e) => e,
                Err(err) => {
                    proof {
                        lemma_equality_rest_unfold(toks0, cpos, lhs0);
                    }
                    return Err(err);
                },
            };
            let ghost rv = expr_view(right);
            proof {
                lemma_equality_rest_unfold(toks0, cpos, lhs0);
            }
            expr = Expression::Binary(Box::new(expr), op, Box::new(right));
            proof {
                assert(expr_view(expr) == ExprV::Binary(Box::new(lhs0), toks0[cpos], Box::new(rv)));
            }
        }
        proof {
            lemma_equality_rest_unfold(toks0, self.pos(), expr_view(expr));
        }
        Ok(expr)
    }

    /// `comparison := term ( (">" | ">=" | "<" | "<=") term )*`.
    #[verifier::loop_isolation(false)]
    #[verifier::rlimit(100)]
    fn comparison(&mut self) -> (r: Result<Expression, ParseError>)
        requires
            old(self).wf(),
        ensures
            final(self).wf(),
            final(self).toks() == old(self).toks(),
            final(self).pos() >= old(self).pos(),
            match r {
                Ok(e) => spec_comparison(old(self).toks(), old(self).pos())
                    == Parsed::<ExprV>::Found(expr_view(e), final(self).pos())
                    && (expr_view(e) == ExprV::Mark <==> final(self).pos() == old(self).pos()),
                Err(err) => spec_comparison(old(self).toks(), old(self).pos())
                    == Parsed::<ExprV>::Failed(err),
            },
        decreases self.toks().len() - self.pos(), 36int,
    {
        let ghost toks0 = self.toks();
        let ghost pos0: int = self.pos();
        let mut expr = match self.term() {
            Ok(e) => e,
            Err(err) => {
                proof {
                    lemma_comparison_unfold(toks0, pos0);
                }
                return Err(err);
            },
        };
        proof {
            lemma_comparison_unfold(toks0, pos0);
        }
        while self.check(TokenType::Greater) || self.check(TokenType::GreaterEqual) || self.check(
            TokenType::Less,
        ) || self.check(TokenType::LessEqual)
            invariant
                self.wf(),
                self.toks() == toks0,
                pos0 <= self.pos() <= toks0.len(),
                spec_comparison(toks0, pos0) == spec_comparison_rest(
                    toks0,
                    self.pos(),
                    expr_view(expr),
                ),
                (expr_view(expr) == ExprV::Mark <==> self.pos() == pos0),
            decreases toks0.len() - self.pos(),
        {
            let ghost cpos: int = self.pos();
            let ghost lhs0 = expr_view(expr);
            self.advance();
            let op = self.previous().clone();
            let right = match self.term() {
                Ok(e) => e,
                Err(err) => {
                    proof {
                        lemma_comparison_rest_unfold(toks0, cpos, lhs0);
                    }
                    return Err(err);
                },
            };
            let ghost rv = expr_view(right);
            proof {
                lemma_comparison_rest_unfold(toks0, cpos, lhs0);
            }
            expr = Expression::Binary(Box::new(expr), op, Box::new(right));
            proof {
                assert(expr_view(expr) == ExprV::Binary(Box::new(lhs0), toks0[cpos], Box::new(rv)));
            }
        }
        proof {
            lemma_comparison_rest_unfold(toks0, self.pos(), expr_view(expr));
        }
        Ok(expr)
    }

    /// `term := factor ( ("-" | "+") factor )*`.
    #[verifier::loop_isolation(false)]
    #[verifier::rlimit(100)]
    fn term(&mut self) -> (r: Result<Expression, ParseError>)
        requires
            old(self).wf(),
        ensures
            final(self).wf(),
            final(self).toks() == old(self).toks(),
            final(self).pos() >= old(self).pos(),
            match r {
                Ok(e) => spec_term(old(self).toks(), old(self).pos())
                    == Parsed::<ExprV>::Found(expr_view(e), final(self).pos())
                    && (expr_view(e) == ExprV::Mark <==> final(self).pos() == old(self).pos()),
                Err(err) => spec_term(old(self).toks(), old(self).pos())
                    == Parsed::<ExprV>::Failed(err),
            },
        decreases self.toks().len() - self.pos(), 32int,
    {
        let ghost toks0 = self.toks();
        let ghost pos0: int = self.pos();
        let mut expr = match self.factor() {
            Ok(e) => e,
            Err(err) => {
                proof {
                    lemma_term_unfold(toks0, pos0);
                }
                return Err(err);
            },
        };
        proof {
            lemma_term_unfold(toks0, pos0);
        }
        while self.check(TokenType::Minus) || self.check(TokenType::Plus)
            invariant
                self.wf(),
                self.toks() == toks0,
                pos0 <= self.pos() <= toks0.len(),
                spec_term(toks0, pos0) == spec_term_rest(toks0, self.pos(), expr_view(expr)),
                (expr_view(expr) == ExprV::Mark <==> self.pos() == pos0),
            decreases toks0.len() - self.pos(),
        {
            let ghost cpos: int = self.pos();
            let ghost lhs0 = expr_view(expr);
            self.advance();
            let op = self.previous().clone();
            let right = match self.factor() {
                Ok(e) => e,
                Err(err) => {
                    proof {
                        lemma_term_rest_unfold(toks0, cpos, lhs0);
                    }
                    return Err(err);
                },
            };
            let ghost rv = expr_view(right);
            proof {
                lemma_term_rest_unfold(toks0, cpos, lhs0);
            }
            expr = Expression::Binary(Box::new(expr), op, Box::new(right));
            proof {
                assert(expr_view(expr) == ExprV::Binary(Box::new(lhs0), toks0[cpos], Box::new(rv)));
            }
        }
        proof {
            lemma_term_rest_unfold(toks0, self.pos(), expr_view(expr));
        }
        Ok(expr)
    }

    /// `factor := unary ( ("/" | "*") unary )*`.
    #[verifier::loop_isolation(false)]
    #[verifier::rlimit(100)]
    fn factor(&mut self) -> (r: Result<Expression, ParseError>)
        requires
            old(self).wf(),
        ensures
            final(self).wf(),
            final(self).toks() == old(self).toks(),
            final(self).pos() >= old(self).pos(),
            match r {
                Ok(e) => spec_factor(old(self).toks(), old(self).pos())
                    == Parsed::<ExprV>::Found(expr_view(e), final(self).pos())
                    && (expr_view(e) == ExprV::Mark <==> final(self).pos() == old(self).pos()),
                Err(err) => spec_factor(old(self).toks(), old(self).pos())
                    == Parsed::<ExprV>::Failed(err),
            },
        decreases self.toks().len() - self.pos(), 28int,
    {
        let ghost toks0 = self.toks();
        let ghost pos0: int = self.pos();
        let mut expr = match self.unary() {
            Ok(e) => e,
            Err(err) => {
                proof {
                    lemma_factor_unfold(toks0, pos0);
                }
                return Err(err);
            },
        };
        proof {
            lemma_factor_unfold(toks0, pos0);
        }
        while self.check(TokenType::Slash) || self.check(TokenType::Star)
            invariant
                self.wf(),
                self.toks() == toks0,
                pos0 <= self.pos() <= toks0.len(),
                spec_factor(toks0, pos0) == spec_factor_rest(toks0, self.pos(), expr_view(expr)),
                (expr_view(expr) == ExprV::Mark <==> self.pos() == pos0),
            decreases toks0.len() - self.pos(),
        {
            let ghost cpos: int = self.pos();
            let ghost lhs0 = expr_view(expr);
            self.advance();
            let op = self.previous().clone();
            let right = match self.unary() {
                Ok(e) => e,
                Err(err) => {
                    proof {
                        lemma_factor_rest_unfold(toks0, cpos, lhs0);
                    }
                    return Err(err);
                },
            };
            let ghost rv = expr_view(right);
            proof {
                lemma_factor_rest_unfold(toks0, cpos, lhs0);
            }
            expr = Expression::Binary(Box::new(expr), op, Box::new(right));
            proof {
                assert(expr_view(expr) == ExprV::Binary(Box::new(lhs0), toks0[cpos], Box::new(rv)));
            }
        }
        proof {
            lemma_factor_rest_unfold(toks0, self.pos(), expr_view(expr));
        }
        Ok(expr)
    }

    /// `unary := ("!" | "-") unary | call`.
    #[verifier::rlimit(100)]
    fn unary(&mut self) -> (r: Result<Expression, ParseError>)
        requires
            old(self).wf(),
        ensures
            final(self).wf(),
            final(self).toks() == old(self).toks(),
            final(self).pos() >= old(self).pos(),
            match r {
                Ok(e) => spec_unary(old(self).toks(), old(self).pos())
                    == Parsed::<ExprV>::Found(expr_view(e), final(self).pos())
                    && (expr_view(e) == ExprV::Mark <==> final(self).pos() == old(self).pos()),
                Err(err) => spec_unary(old(self).toks(), old(self).pos())
                    == Parsed::<ExprV>::Failed(err),
            },
        decreases self.toks().len() - self.pos(), 24int,
    {
        let ghost toks0 = self.toks();
        let ghost pos0: int = self.pos();
        proof {
            lemma_unary_unfold(toks0, pos0);
        }
        if self.expect2(TokenType::Bang, TokenType::Minus) {
            let op = self.previous().clone();
            let right = match self.unary() {
                Ok(e) => e,
                Err(err) => return Err(err),
            };
            return Ok(Expression::Unary(op, Box::new(right)));
        }
        self.call()
    }

    /// `call := primary ( "(" arguments? ")" )*` — each suffix wraps the
    /// expression so far into a new `Call` node, left-associatively.
    #[verifier::loop_isolation(false)]
    #[verifier::rlimit(100)]
    fn call(&mut self) -> (r: Result<Expression, ParseError>)
        requires
            old(self).wf(),
        ensures
            final(self).wf(),
            final(self).toks() == old(self).toks(),
            final(self).pos() >= old(self).pos(),
            match r {
                Ok(e) => spec_call(old(self).toks(), old(self).pos())
                    == Parsed::<ExprV>::Found(expr_view(e), final(self).pos())
                    && (expr_view(e) == ExprV::Mark <==> final(self).pos() == old(self).pos()),
                Err(err) => spec_call(old(self).toks(), old(self).pos())
                    == Parsed::<ExprV>::Failed(err),
            },
        decreases self.toks().len() - self.pos(), 22int,
    {
        let ghost toks0 = self.toks();
        let ghost pos0: int = self.pos();
        let mut expr = match self.primary() {
            Ok(e) => e,
            Err(err) => {
                proof {
                    lemma_call_unfold(toks0, pos0);
                }
                return Err(err);
            },
        };
        proof {
            lemma_call_unfold(toks0, pos0);
        }
        while self.check(TokenType::LeftParen)
            invariant
                self.wf(),
                self.toks() == toks0,
                pos0 <= self.pos() <= toks0.len(),
                spec_call(toks0, pos0) == spec_call_rest(toks0, self.pos(), expr_view(expr)),
                (expr_view(expr) == ExprV::Mark <==> self.pos() == pos0),
            decreases toks0.len() - self.pos(),
        {
            let ghost cpos: int = self.pos();
            let ghost callee0 = expr_view(expr);
            self.advance();
            expr = match self.finish_call(expr) {
                Ok(e) => e,
                Err(err) => {
                    proof {
                        lemma_call_rest_unfold(toks0, cpos, callee0);
                    }
                    return Err(err);
                },
            };
            proof {
                lemma_call_rest_unfold(toks0, cpos, callee0);
            }
        }
        proof {
            lemma_call_rest_unfold(toks0, self.pos(), expr_view(expr));
        }
        Ok(expr)
    }

    /// The remainder of one call after its `(`: the comma-separated
    /// arguments, the mandatory `)`, and the `Call` node around `callee`.
    #[verifier::loop_isolation(false)]
    #[verifier::rlimit(100)]
    fn finish_call(&mut self, callee: Expression) -> (r: Result<Expression, ParseError>)
        requires
            old(self).wf(),
        ensures
            final(self).wf(),
            final(self).toks() == old(self).toks(),
            final(self).pos() >= old(self).pos(),
            match r {
                Ok(e) => (spec_finish_call(old(self).toks(), old(self).pos()) matches
                    Parsed::Found(ap, p)
                    && expr_view(e) == ExprV::Call(Box::new(expr_view(callee)), ap.1, ap.0)
                    && final(self).pos() == p),
                Err(err) => spec_finish_call(old(self).toks(), old(self).pos())
                    == Parsed::<(Seq<ExprV>, TokenV)>::Failed(err),
            },
        decreases self.toks().len() - self.pos(), 60int,
    {
        let ghost toks0 = self.toks();
        let ghost pos0: int = self.pos();
        proof {
            lemma_finish_call_unfold(toks0, pos0);
        }
        let mut arguments: Vec<Expression> = Vec::new();
        proof {
            assert(exprs_view(Seq::<Expression>::empty()) =~= Seq::<ExprV>::empty());
        }
        if !self.check(TokenType::RightParen) {
            let first = match self.expression() {
                Ok(e) => e,
                Err(err) => {
                    proof {
                        lemma_arguments_unfold(toks0, pos0);
                    }
                    return Err(err);
                },
            };
            let ghost ev0 = expr_view(first);
            arguments.push(first);
            proof {
                lemma_arguments_unfold(toks0, pos0);
                assert(arguments@.drop_last() =~= Seq::<Expression>::empty());
                assert(exprs_view(arguments@) =~= seq![ev0]);
            }
            while self.check(TokenType::Comma)
                invariant
                    self.wf(),
                    self.toks() == toks0,
                    pos0 <= self.pos() <= toks0.len(),
                    spec_arguments(toks0, pos0) == spec_arguments_rest(
                        toks0,
                        self.pos(),
                        exprs_view(arguments@),
                    ),
                decreases toks0.len() - self.pos(),
            {
                let ghost cpos: int = self.pos();
                let ghost acc0 = exprs_view(arguments@);
                let ghost avec0 = arguments@;
                self.advance();
                let e = match self.expression() {
                    Ok(e) => e,
                    Err(err) => {
                        proof {
                            lemma_arguments_rest_unfold(toks0, cpos, acc0);
                        }
                        return Err(err);
                    },
                };
                let ghost ev = expr_view(e);
                arguments.push(e);
                proof {
                    lemma_arguments_rest_unfold(toks0, cpos, acc0);
                    assert(arguments@.drop_last() =~= avec0);
                    assert(exprs_view(arguments@) == acc0.push(ev));
                }
            }
            proof {
                lemma_arguments_rest_unfold(toks0, self.pos(), exprs_view(arguments@));
            }
        }
        let paren = match self.consume(
            TokenType::RightParen,
            ParseError::ExpectedRightParenAfterArguments,
        ) {
            Ok(t) => t,
            Err(err) => return Err(err),
        };
        Ok(Expression::Call(Box::new(callee), paren, arguments))
    }

    /// `primary := "false" | "true" | NUMBER | STRING | "(" expression ")"
    /// | IDENT` — with the silent `Mark` fallthrough when nothing matches.
    #[verifier::rlimit(100)]
    fn primary(&mut self) -> (r: Result<Expression, ParseError>)
        requires
            old(self).wf(),
        ensures
            final(self).wf(),
            final(self).toks() == old(self).toks(),
            final(self).pos() >= old(self).pos(),
            match r {
                Ok(e) => spec_primary(old(self).toks(), old(self).pos())
                    == Parsed::<ExprV>::Found(expr_view(e), final(self).pos())
                    && (expr_view(e) == ExprV::Mark <==> final(self).pos() == old(self).pos()),
                Err(err) => spec_primary(old(self).toks(), old(self).pos())
                    == Parsed::<ExprV>::Failed(err),
            },
        decreases self.toks().len() - self.pos(), 10int,
    {
        let ghost toks0 = self.toks();
        let ghost pos0: int = self.pos();
        proof {
            lemma_primary_unfold(toks0, pos0);
        }
        if self.expect(TokenType::False) {
            return Ok(Expression::Literal(Object::Bool(false)));
        }
        if self.expect(TokenType::True) {
            return Ok(Expression::Literal(Object::Bool(true)));
        }
        if self.expect2(TokenType::Number, TokenType::Str) {
            let lit = self.previous().literal.clone();
            return Ok(Expression::Literal(lit));
        }
        if self.expect(TokenType::LeftParen) {
            let e = match self.expression() {
                Ok(e) => e,
                Err(err) => return Err(err),
            };
            return match self.consume(
                TokenType::RightParen,
                ParseError::ExpectedRightParenAfterExpression,
            ) {
                Ok(_) => Ok(Expression::Grouping(Box::new(e))),
                Err(err) => Err(err),
            };
        }
        if self.expect(TokenType::Identifier) {
            let t = self.previous().clone();
            return Ok(Expression::Var(t));
        }
        Ok(Expression::Mark)
    }
}

} // verus!
