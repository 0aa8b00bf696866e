//! The grammar, stated mathematically: one spec function per non-terminal,
//! over the token sequence and the cursor position.
//!
//! Each function yields a [`Parsed`] outcome: the parsed node together with
//! the position one past what it consumed, or the failure that aborts the
//! whole parse.  Precedence and associativity live in the call graph, lowest
//! precedence outermost, exactly as in the executable routines that are
//! proved against these definitions.
//!
//! The recursion terminates lexicographically on (tokens left, rank of the
//! non-terminal); wherever a returned position flows into further parsing,
//! the definition checks that it stayed within bounds and moved where
//! progress is needed, and yields `ParseError::Stuck` otherwise.  The
//! verified routines advance the cursor monotonically, so for them the only
//! reachable `Stuck` is the genuine one: a statement position where the
//! `Mark` sentinel consumed nothing.  The functions are opaque: proofs
//! unfold them one step at a time through the lemmas beside the routines.

use vstd::prelude::*;

use crate::ast::{ExprV, ParseError, StmtV};
use crate::token::{ObjectV, TokenType, TokenV};

verus! {

/// The outcome of one spec-level parsing routine: the parsed value and the
/// position one past the consumed tokens, or the failure that aborts the
/// whole parse.
pub enum Parsed<T> {
    Found(T, int),
    Failed(ParseError),
}

/// True iff `pos` is in bounds and the token there has kind `k`.
pub open spec fn kind_at(toks: Seq<TokenV>, pos: int, k: TokenType) -> bool {
    0 <= pos < toks.len() && toks[pos].kind == k
}

/// `program := declaration* ⟂` — the whole input, to its end.
#[verifier::opaque]
pub open spec fn spec_program(toks: Seq<TokenV>, pos: int) -> Parsed<Seq<StmtV>>
    decreases toks.len() - pos, 100int,
{
    if pos >= toks.len() {
        Parsed::Found(Seq::empty(), pos)
    } else {
        match spec_declaration(toks, pos) {
            Parsed::Failed(e) => Parsed::Failed(e),
            Parsed::Found(s, p2) => if pos < p2 && p2 <= toks.len() {
                match spec_program(toks, p2) {
                    Parsed::Failed(e) => Parsed::Failed(e),
                    Parsed::Found(rest, p3) => Parsed::Found(seq![s] + rest, p3),
                }
            } else {
                Parsed::Failed(ParseError::Stuck)
            },
        }
    }
}

/// `declaration := function-decl | var-decl | statement`.
#[verifier::opaque]
pub open spec fn spec_declaration(toks: Seq<TokenV>, pos: int) -> Parsed<StmtV>
    decreases toks.len() - pos, 90int,
{
    if kind_at(toks, pos, TokenType::Function) {
        spec_function_decl(toks, pos + 1)
    } else if kind_at(toks, pos, TokenType::Var) {
        spec_var_decl(toks, pos + 1)
    } else {
        spec_statement(toks, pos)
    }
}

/// `statement := if-stmt | print-stmt | block | expression-stmt`.
#[verifier::opaque]
pub open spec fn spec_statement(toks: Seq<TokenV>, pos: int) -> Parsed<StmtV>
    decreases toks.len() - pos, 85int,
{
    if kind_at(toks, pos, TokenType::If) {
        spec_if_stmt(toks, pos + 1)
    } else if kind_at(toks, pos, TokenType::Print) {
        match spec_expression(toks, pos + 1) {
            Parsed::Failed(e) => Parsed::Failed(e),
            Parsed::Found(v, p2) => Parsed::Found(StmtV::Print(v), p2),
        }
    } else if kind_at(toks, pos, TokenType::LeftBrace) {
        match spec_block_items(toks, pos + 1) {
            Parsed::Failed(e) => Parsed::Failed(e),
            Parsed::Found(ss, p2) => Parsed::Found(StmtV::Block(ss), p2),
        }
    } else {
        match spec_expression(toks, pos) {
            Parsed::Failed(e) => Parsed::Failed(e),
            Parsed::Found(v, p2) => Parsed::Found(StmtV::Expression(v), p2),
        }
    }
}

/// The declarations of a block, up to and including the closing `}`.
#[verifier::opaque]
pub open spec fn spec_block_items(toks: Seq<TokenV>, pos: int) -> Parsed<Seq<StmtV>>
    decreases toks.len() - pos, 95int,
{
    if kind_at(toks, pos, TokenType::RightBrace) {
        Parsed::Found(Seq::empty(), pos + 1)
    } else if pos >= toks.len() {
        Parsed::Failed(ParseError::ExpectedRightBraceAfterBlock)
    } else {
        match spec_declaration(toks, pos) {
            Parsed::Failed(e) => Parsed::Failed(e),
            Parsed::Found(s, p2) => if pos < p2 && p2 <= toks.len() {
                match spec_block_items(toks, p2) {
                    Parsed::Failed(e) => Parsed::Failed(e),
                    Parsed::Found(rest, p3) => Parsed::Found(seq![s] + rest, p3),
                }
            } else {
                Parsed::Failed(ParseError::Stuck)
            },
        }
    }
}

/// `if-stmt := "(" expression ")" statement ("else" statement)?`, entered
/// with the `if` keyword already consumed.  The greedy `else` check binds an
/// `else` to the nearest preceding `if`.
#[verifier::opaque]
pub open spec fn spec_if_stmt(toks: Seq<TokenV>, pos: int) -> Parsed<StmtV>
    decreases toks.len() - pos, 80int,
{
    if !kind_at(toks, pos, TokenType::LeftParen) {
        Parsed::Failed(ParseError::ExpectedLeftParenAfterIf)
    } else {
        match spec_expression(toks, pos + 1) {
            Parsed::Failed(e) => Parsed::Failed(e),
            Parsed::Found(cond, p2) => if !kind_at(toks, p2, TokenType::RightParen) {
                Parsed::Failed(ParseError::ExpectedRightParenAfterCondition)
            } else if pos <= p2 {
                match spec_statement(toks, p2 + 1) {
                    Parsed::Failed(e) => Parsed::Failed(e),
                    Parsed::Found(thn, p3) => if kind_at(toks, p3, TokenType::Else) {
                        if pos <= p3 {
                            match spec_statement(toks, p3 + 1) {
                                Parsed::Failed(e) => Parsed::Failed(e),
                                Parsed::Found(els, p4) => Parsed::Found(
                                    StmtV::If(cond, Box::new(thn), Option::Some(Box::new(els))),
                                    p4,
                                ),
                            }
                        } else {
                            Parsed::Failed(ParseError::Stuck)
                        }
                    } else {
                        Parsed::Found(StmtV::If(cond, Box::new(thn), Option::None), p3)
                    },
                }
            } else {
                Parsed::Failed(ParseError::Stuck)
            },
        }
    }
}

/// `var-decl := IDENT "=" expression`, entered with `var` already consumed.
/// The initializer is required.
#[verifier::opaque]
pub open spec fn spec_var_decl(toks: Seq<TokenV>, pos: int) -> Parsed<StmtV>
    decreases toks.len() - pos, 80int,
{
    if !kind_at(toks, pos, TokenType::Identifier) {
        Parsed::Failed(ParseError::ExpectedVariableName)
    } else if !kind_at(toks, pos + 1, TokenType::Equal) {
        Parsed::Failed(ParseError::ExpectedInitializer)
    } else {
        match spec_expression(toks, pos + 2) {
            Parsed::Failed(e) => Parsed::Failed(e),
            Parsed::Found(v, p2) => Parsed::Found(StmtV::Var(toks[pos], v), p2),
        }
    }
}

/// `function-decl := IDENT "(" params? ")" block`, entered with `function`
/// already consumed.
#[verifier::opaque]
pub open spec fn spec_function_decl(toks: Seq<TokenV>, pos: int) -> Parsed<StmtV>
    decreases toks.len() - pos, 80int,
{
    if !kind_at(toks, pos, TokenType::Identifier) {
        Parsed::Failed(ParseError::ExpectedFunctionName)
    } else if !kind_at(toks, pos + 1, TokenType::LeftParen) {
        Parsed::Failed(ParseError::ExpectedLeftParenAfterFunctionName)
    } else {
        match spec_params(toks, pos + 2) {
            Parsed::Failed(e) => Parsed::Failed(e),
            Parsed::Found(ps, p2) => if !kind_at(toks, p2, TokenType::RightParen) {
                Parsed::Failed(ParseError::ExpectedRightParenAfterParameters)
            } else if !kind_at(toks, p2 + 1, TokenType::LeftBrace) {
                Parsed::Failed(ParseError::ExpectedLeftBraceBeforeFunctionBody)
            } else if pos <= p2 {
                match spec_block_items(toks, p2 + 2) {
                    Parsed::Failed(e) => Parsed::Failed(e),
                    Parsed::Found(body, p3) => Parsed::Found(
                        StmtV::Function(toks[pos], ps, body),
                        p3,
                    ),
                }
            } else {
                Parsed::Failed(ParseError::Stuck)
            },
        }
    }
}

/// `params? := ε | IDENT ("," IDENT)*` — empty only when `)` follows
/// directly; the closing `)` is left unconsumed.
#[verifier::opaque]
pub open spec fn spec_params(toks: Seq<TokenV>, pos: int) -> Parsed<Seq<TokenV>>
    decreases toks.len() - pos, 78int,
{
    if kind_at(toks, pos, TokenType::RightParen) {
        Parsed::Found(Seq::empty(), pos)
    } else if !kind_at(toks, pos, TokenType::Identifier) {
        Parsed::Failed(ParseError::ExpectedParameterName)
    } else {
        spec_params_rest(toks, pos + 1, seq![toks[pos]])
    }
}

/// The comma-led tail of a parameter list, with the names read so far.
#[verifier::opaque]
pub open spec fn spec_params_rest(toks: Seq<TokenV>, pos: int, acc: Seq<TokenV>) -> Parsed<
    Seq<TokenV>,
>
    decreases toks.len() - pos, 76int,
{
    if kind_at(toks, pos, TokenType::Comma) {
        if kind_at(toks, pos + 1, TokenType::Identifier) {
            spec_params_rest(toks, pos + 2, acc.push(toks[pos + 1]))
        } else {
            Parsed::Failed(ParseError::ExpectedParameterName)
        }
    } else {
        Parsed::Found(acc, pos)
    }
}

/// `expression := assignment` — the lowest-precedence entry point.
#[verifier::opaque]
pub open spec fn spec_expression(toks: Seq<TokenV>, pos: int) -> Parsed<ExprV>
    decreases toks.len() - pos, 50int,
{
    spec_assignment(toks, pos)
}

/// `assignment := equality ( "=" assignment )?` — right-associative; the
/// left side must turn out to be a plain variable once the value is parsed.
#[verifier::opaque]
pub open spec fn spec_assignment(toks: Seq<TokenV>, pos: int) -> Parsed<ExprV>
    decreases toks.len() - pos, 45int,
{
    match spec_equality(toks, pos) {
        Parsed::Failed(e) => Parsed::Failed(e),
        Parsed::Found(lhs, p2) => if kind_at(toks, p2, TokenType::Equal) {
            if pos <= p2 {
                match spec_assignment(toks, p2 + 1) {
                    Parsed::Failed(e) => Parsed::Failed(e),
                    Parsed::Found(v, p3) => match lhs {
                        ExprV::Var(name) => Parsed::Found(
                            ExprV::Assignment(name, Box::new(v)),
                            p3,
                        ),
                        _ => Parsed::Failed(ParseError::InvalidAssignmentTarget),
                    },
                }
            } else {
                Parsed::Failed(ParseError::Stuck)
            }
        } else {
            Parsed::Found(lhs, p2)
        },
    }
}

/// `equality := comparison ( ("!=" | "==") comparison )*`.
#[verifier::opaque]
pub open spec fn spec_equality(toks: Seq<TokenV>, pos: int) -> Parsed<ExprV>
    decreases toks.len() - pos, 40int,
{
    match spec_comparison(toks, pos) {
        Parsed::Failed(e) => Parsed::Failed(e),
        Parsed::Found(lhs, p2) => if pos <= p2 && p2 <= toks.len() {
            spec_equality_rest(toks, p2, lhs)
        } else {
            Parsed::Failed(ParseError::Stuck)
        },
    }
}

/// The left-associative operator tail of `equality`.
#[verifier::opaque]
pub open spec fn spec_equality_rest(toks: Seq<TokenV>, pos: int, lhs: ExprV) -> Parsed<ExprV>
    decreases toks.len() - pos, 38int,
{
    if kind_at(toks, pos, TokenType::BangEqual) || kind_at(toks, pos, TokenType::EqualEqual) {
        match spec_comparison(toks, pos + 1) {
            Parsed::Failed(e) => Parsed::Failed(e),
            Parsed::Found(rhs, p3) => if pos < p3 && p3 <= toks.len() {
                spec_equality_rest(
                    toks,
                    p3,
                    ExprV::Binary(Box::new(lhs), toks[pos], Box::new(rhs)),
                )
            } else {
                Parsed::Failed(ParseError::Stuck)
            },
        }
    } else {
        Parsed::Found(lhs, pos)
    }
}

/// `comparison := term ( (">" | ">=" | "<" | "<=") term )*`.
#[verifier::opaque]
pub open spec fn spec_comparison(toks: Seq<TokenV>, pos: int) -> Parsed<ExprV>
    decreases toks.len() - pos, 36int,
{
    match spec_term(toks, pos) {
        Parsed::Failed(e) => Parsed::Failed(e),
        Parsed::Found(lhs, p2) => if pos <= p2 && p2 <= toks.len() {
            spec_comparison_rest(toks, p2, lhs)
        } else {
            Parsed::Failed(ParseError::Stuck)
        },
    }
}

/// The left-associative operator tail of `comparison`.
#[verifier::opaque]
pub open spec fn spec_comparison_rest(toks: Seq<TokenV>, pos: int, lhs: ExprV) -> Parsed<ExprV>
    decreases toks.len() - pos, 34int,
{
    if kind_at(toks, pos, TokenType::Greater) || kind_at(toks, pos, TokenType::GreaterEqual)
        || kind_at(toks, pos, TokenType::Less) || kind_at(toks, pos, TokenType::LessEqual) {
        match spec_term(toks, pos + 1) {
            Parsed::Failed(e) => Parsed::Failed(e),
            Parsed::Found(rhs, p3) => if pos < p3 && p3 <= toks.len() {
                spec_comparison_rest(
                    toks,
                    p3,
                    ExprV::Binary(Box::new(lhs), toks[pos], Box::new(rhs)),
                )
            } else {
                Parsed::Failed(ParseError::Stuck)
            },
        }
    } else {
        Parsed::Found(lhs, pos)
    }
}

/// `term := factor ( ("-" | "+") factor )*`.
#[verifier::opaque]
pub open spec fn spec_term(toks: Seq<TokenV>, pos: int) -> Parsed<ExprV>
    decreases toks.len() - pos, 32int,
{
    match spec_factor(toks, pos) {
        Parsed::Failed(e) => Parsed::Failed(e),
        Parsed::Found(lhs, p2) => if pos <= p2 && p2 <= toks.len() {
            spec_term_rest(toks, p2, lhs)
        } else {
            Parsed::Failed(ParseError::Stuck)
        },
    }
}

/// The left-associative operator tail of `term`.
#[verifier::opaque]
pub open spec fn spec_term_rest(toks: Seq<TokenV>, pos: int, lhs: ExprV) -> Parsed<ExprV>
    decreases toks.len() - pos, 30int,
{
    if kind_at(toks, pos, TokenType::Minus) || kind_at(toks, pos, TokenType::Plus) {
        match spec_factor(toks, pos + 1) {
            Parsed::Failed(e) => Parsed::Failed(e),
            Parsed::Found(rhs, p3) => if pos < p3 && p3 <= toks.len() {
                spec_term_rest(
                    toks,
                    p3,
                    ExprV::Binary(Box::new(lhs), toks[pos], Box::new(rhs)),
                )
            } else {
                Parsed::Failed(ParseError::Stuck)
            },
        }
    } else {
        Parsed::Found(lhs, pos)
    }
}

/// `factor := unary ( ("/" | "*") unary )*`.
#[verifier::opaque]
pub open spec fn spec_factor(toks: Seq<TokenV>, pos: int) -> Parsed<ExprV>
    decreases toks.len() - pos, 28int,
{
    match spec_unary(toks, pos) {
        Parsed::Failed(e) => Parsed::Failed(e),
        Parsed::Found(lhs, p2) => if pos <= p2 && p2 <= toks.len() {
            spec_factor_rest(toks, p2, lhs)
        } else {
            Parsed::Failed(ParseError::Stuck)
        },
    }
}

/// The left-associative operator tail of `factor`.
#[verifier::opaque]
pub open spec fn spec_factor_rest(toks: Seq<TokenV>, pos: int, lhs: ExprV) -> Parsed<ExprV>
    decreases toks.len() - pos, 26int,
{
    if kind_at(toks, pos, TokenType::Slash) || kind_at(toks, pos, TokenType::Star) {
        match spec_unary(toks, pos + 1) {
            Parsed::Failed(e) => Parsed::Failed(e),
            Parsed::Found(rhs, p3) => if pos < p3 && p3 <= toks.len() {
                spec_factor_rest(
                    toks,
                    p3,
                    ExprV::Binary(Box::new(lhs), toks[pos], Box::new(rhs)),
                )
            } else {
                Parsed::Failed(ParseError::Stuck)
            },
        }
    } else {
        Parsed::Found(lhs, pos)
    }
}

/// `unary := ("!" | "-") unary | call` — right-nested prefixes.
#[verifier::opaque]
pub open spec fn spec_unary(toks: Seq<TokenV>, pos: int) -> Parsed<ExprV>
    decreases toks.len() - pos, 24int,
{
    if kind_at(toks, pos, TokenType::Bang) || kind_at(toks, pos, TokenType::Minus) {
        match spec_unary(toks, pos + 1) {
            Parsed::Failed(e) => Parsed::Failed(e),
            Parsed::Found(rhs, p2) => Parsed::Found(
                ExprV::Unary(toks[pos], Box::new(rhs)),
                p2,
            ),
        }
    } else {
        spec_call(toks, pos)
    }
}

/// `call := primary ( "(" arguments? ")" )*` — left-associative chaining.
#[verifier::opaque]
pub open spec fn spec_call(toks: Seq<TokenV>, pos: int) -> Parsed<ExprV>
    decreases toks.len() - pos, 22int,
{
    match spec_primary(toks, pos) {
        Parsed::Failed(e) => Parsed::Failed(e),
        Parsed::Found(callee, p2) => if pos <= p2 && p2 <= toks.len() {
            spec_call_rest(toks, p2, callee)
        } else {
            Parsed::Failed(ParseError::Stuck)
        },
    }
}

/// The chain of call suffixes: each `(` wraps the expression so far into a
/// new `Call` node.
#[verifier::opaque]
pub open spec fn spec_call_rest(toks: Seq<TokenV>, pos: int, callee: ExprV) -> Parsed<ExprV>
    decreases toks.len() - pos, 20int,
{
    if kind_at(toks, pos, TokenType::LeftParen) {
        match spec_finish_call(toks, pos + 1) {
            Parsed::Failed(e) => Parsed::Failed(e),
            Parsed::Found((args, paren), p2) => if pos < p2 && p2 <= toks.len() {
                spec_call_rest(toks, p2, ExprV::Call(Box::new(callee), paren, args))
            } else {
                Parsed::Failed(ParseError::Stuck)
            },
        }
    } else {
        Parsed::Found(callee, pos)
    }
}

/// The remainder of one call after its `(`: the arguments, then the closing
/// `)`, whose token is kept in the node.
#[verifier::opaque]
pub open spec fn spec_finish_call(toks: Seq<TokenV>, pos: int) -> Parsed<(Seq<ExprV>, TokenV)>
    decreases toks.len() - pos, 60int,
{
    if kind_at(toks, pos, TokenType::RightParen) {
        Parsed::Found((Seq::empty(), toks[pos]), pos + 1)
    } else {
        match spec_arguments(toks, pos) {
            Parsed::Failed(e) => Parsed::Failed(e),
            Parsed::Found(args, p2) => if kind_at(toks, p2, TokenType::RightParen) {
                Parsed::Found((args, toks[p2]), p2 + 1)
            } else {
                Parsed::Failed(ParseError::ExpectedRightParenAfterArguments)
            },
        }
    }
}

/// `arguments := expression ("," expression)*`.
#[verifier::opaque]
pub open spec fn spec_arguments(toks: Seq<TokenV>, pos: int) -> Parsed<Seq<ExprV>>
    decreases toks.len() - pos, 55int,
{
    match spec_expression(toks, pos) {
        Parsed::Failed(e) => Parsed::Failed(e),
        Parsed::Found(v, p2) => if pos <= p2 && p2 <= toks.len() {
            spec_arguments_rest(toks, p2, seq![v])
        } else {
            Parsed::Failed(ParseError::Stuck)
        },
    }
}

/// The comma-led tail of an argument list, with the arguments read so far.
#[verifier::opaque]
pub open spec fn spec_arguments_rest(toks: Seq<TokenV>, pos: int, acc: Seq<ExprV>) -> Parsed<
    Seq<ExprV>,
>
    decreases toks.len() - pos, 54int,
{
    if kind_at(toks, pos, TokenType::Comma) {
        match spec_expression(toks, pos + 1) {
            Parsed::Failed(e) => Parsed::Failed(e),
            Parsed::Found(v, p2) => if pos < p2 && p2 <= toks.len() {
                spec_arguments_rest(toks, p2, acc.push(v))
            } else {
                Parsed::Failed(ParseError::Stuck)
            },
        }
    } else {
        Parsed::Found(acc, pos)
    }
}

/// `primary := "false" | "true" | NUMBER | STRING | "(" expression ")"
/// | IDENT | Mark` — the silent `Mark` sentinel is the fallthrough, produced
/// without consuming a token.
#[verifier::opaque]
pub open spec fn spec_primary(toks: Seq<TokenV>, pos: int) -> Parsed<ExprV>
    decreases toks.len() - pos, 10int,
{
    if kind_at(toks, pos, TokenType::False) {
        Parsed::Found(ExprV::Literal(ObjectV::Bool(false)), pos + 1)
    } else if kind_at(toks, pos, TokenType::True) {
        Parsed::Found(ExprV::Literal(ObjectV::Bool(true)), pos + 1)
    } else if kind_at(toks, pos, TokenType::Number) || kind_at(toks, pos, TokenType::Str) {
        Parsed::Found(ExprV::Literal(toks[pos].literal), pos + 1)
    } else if kind_at(toks, pos, TokenType::LeftParen) {
        match spec_expression(toks, pos + 1) {
            Parsed::Failed(e) => Parsed::Failed(e),
            Parsed::Found(v, p2) => if kind_at(toks, p2, TokenType::RightParen) {
                Parsed::Found(ExprV::Grouping(Box::new(v)), p2 + 1)
            } else {
                Parsed::Failed(ParseError::ExpectedRightParenAfterExpression)
            },
        }
    } else if kind_at(toks, pos, TokenType::Identifier) {
        Parsed::Found(ExprV::Var(toks[pos]), pos + 1)
    } else {
        Parsed::Found(ExprV::Mark, pos)
    }
}

} // verus!
