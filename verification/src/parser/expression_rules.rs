//! The grammar of expressions, as functions on the tokens of a text.
//!
//! Each level of the ladder has one function, which says what parsing from a position gives.
//! From the loosest to the tightest: assignment, ternary, `or`, `and`, equality, comparison,
//! term, factor, unary, call, primary. The four binary levels group to the left; assignment,
//! the ternary and the two logical operators group to the right. A call may have no
//! arguments, and a comma may follow its last one.

use vstd::prelude::*;
use crate::ast::expression::{ExpressionView, LiteralValueView};
use crate::ast::operator::Operator;
use crate::ast::span::Span;
use crate::lexer::token::{LiteralView, TokenView};
use crate::lexer::token_kind::TokenKind;
use crate::lox_error::LoxErrorView;

verus! {

/// What parsing one construct from a position gives: the construct and the position behind
/// it, or an error and the position at which parsing stopped.
pub enum Parsed<T> {
    Done { value: T, next: int },
    Failed { error: LoxErrorView, at: int },
}

/// The kind of the token at `pos`; beyond the tokens there is only the end of input.
pub open spec fn kind_at(tokens: Seq<TokenView>, pos: int) -> TokenKind {
    if 0 <= pos < tokens.len() {
        tokens[pos].kind
    } else {
        TokenKind::Eof
    }
}

/// The span of a token.
pub open spec fn token_span(token: TokenView) -> Span {
    Span { from: token.from, to: token.to }
}

/// The span from the start of `first` to the end of `last`.
pub open spec fn span_over(first: Span, last: Span) -> Span {
    Span { from: first.from, to: last.to }
}

/// An error on the line of the token at `pos`.
pub open spec fn failure(tokens: Seq<TokenView>, pos: int, message: Seq<char>) -> LoxErrorView {
    LoxErrorView { message, line: tokens[pos].line }
}

pub open spec fn expected_message(wanted: TokenKind, found: TokenKind) -> Seq<char> {
    "Syntax Error: Expected "@ + wanted.spec_name() + " but got "@ + found.spec_name()
}

pub open spec fn expression_expected_message(found: Seq<char>) -> Seq<char> {
    "Syntax Error: Expression Expected but got "@ + found
}

pub open spec fn invalid_target_message() -> Seq<char> {
    "Syntax Error: Invalid assignment target"@
}

pub open spec fn unclosed_call_message() -> Seq<char> {
    "Expected ')' after arguments"@
}

pub open spec fn no_progress_message() -> Seq<char> {
    "Syntax Error: no token was consumed"@
}

/// The token at `pos` where it is of kind `kind`, and else the error that says what was
/// expected and what was found.
pub open spec fn expect(tokens: Seq<TokenView>, pos: int, kind: TokenKind) -> Parsed<TokenView> {
    if 0 <= pos < tokens.len() && tokens[pos].kind == kind {
        Parsed::Done { value: tokens[pos], next: pos + 1 }
    } else {
        Parsed::Failed {
            error: failure(tokens, pos, expected_message(kind, tokens[pos].kind)),
            at: pos,
        }
    }
}

/// A construct that began at `pos` ended at `next`, behind at least one token.
pub open spec fn moved(tokens: Seq<TokenView>, pos: int, next: int) -> bool {
    pos < next <= tokens.len()
}

/// The result that stands where a construct would have consumed no token. It is there for
/// the definitions to be well founded: no construct of the grammar consumes nothing, as the
/// lemmas of the module `progress` show, so this result is never the one that counts.
pub open spec fn stalled<T>(tokens: Seq<TokenView>, pos: int) -> Parsed<T> {
    Parsed::Failed { error: failure(tokens, pos, no_progress_message()), at: pos }
}

/// The operator that a token of kind `kind` spells, at `span`.
pub open spec fn operator_of(kind: TokenKind, span: Span) -> Option<Operator> {
    match kind {
        TokenKind::And => Some(Operator::And(span)),
        TokenKind::Bang => Some(Operator::Bang(span)),
        TokenKind::BangEqual => Some(Operator::BangEqual(span)),
        TokenKind::EqualEqual => Some(Operator::EqualEqual(span)),
        TokenKind::Greater => Some(Operator::Greater(span)),
        TokenKind::GreaterEqual => Some(Operator::GreaterEqual(span)),
        TokenKind::Less => Some(Operator::Less(span)),
        TokenKind::LessEqual => Some(Operator::LessEqual(span)),
        TokenKind::Minus => Some(Operator::Minus(span)),
        TokenKind::Or => Some(Operator::Or(span)),
        TokenKind::Plus => Some(Operator::Plus(span)),
        TokenKind::Slash => Some(Operator::Slash(span)),
        TokenKind::Star => Some(Operator::Star(span)),
        _ => None,
    }
}

/// The operator of the token at `pos`.
pub open spec fn operator_at(tokens: Seq<TokenView>, pos: int) -> Operator {
    operator_of(tokens[pos].kind, token_span(tokens[pos]))->0
}

/// The literal that a token spells, if it spells one.
pub open spec fn literal_of(token: TokenView) -> Option<LiteralValueView> {
    let span = token_span(token);
    match token.kind {
        TokenKind::True => Some(LiteralValueView::Boolean { span, value: true }),
        TokenKind::False => Some(LiteralValueView::Boolean { span, value: false }),
        TokenKind::Nil => Some(LiteralValueView::Nil { span }),
        TokenKind::String => Some(
            LiteralValueView::String {
                span,
                value: match token.literal {
                    Some(LiteralView::String(text)) => text,
                    _ => token.lexeme,
                },
            },
        ),
        TokenKind::Number => Some(LiteralValueView::Number { span, raw: token.lexeme }),
        _ => None,
    }
}

/// The operators of the four binary levels, from the loosest to the tightest:
/// equality, comparison, term, factor.
pub open spec fn level_operator(level: nat, kind: TokenKind) -> bool {
    if level == 0 {
        kind == TokenKind::EqualEqual || kind == TokenKind::BangEqual
    } else if level == 1 {
        kind == TokenKind::Greater || kind == TokenKind::GreaterEqual || kind == TokenKind::Less
            || kind == TokenKind::LessEqual
    } else if level == 2 {
        kind == TokenKind::Plus || kind == TokenKind::Minus
    } else {
        kind == TokenKind::Star || kind == TokenKind::Slash
    }
}

pub open spec fn level_rank(level: nat) -> int {
    if level < 3 {
        32 - 4 * level
    } else {
        20
    }
}

/// expression := assignment
#[verifier::opaque]
pub open spec fn expression_at(tokens: Seq<TokenView>, pos: int) -> Parsed<ExpressionView>
    decreases tokens.len() - pos, 40int,
{
    assignment_at(tokens, pos)
}

/// assignment := ternary ( "=" assignment )?
///
/// Only a variable can be assigned to.
#[verifier::opaque]
pub open spec fn assignment_at(tokens: Seq<TokenView>, pos: int) -> Parsed<ExpressionView>
    decreases tokens.len() - pos, 39int,
{
    match ternary_at(tokens, pos) {
        Parsed::Done { value: target, next } => if !moved(tokens, pos, next) {
            stalled(tokens, pos)
        } else if kind_at(tokens, next) == TokenKind::Equal {
            match assignment_at(tokens, next + 1) {
                Parsed::Done { value, next: end } => if target is Variable {
                    Parsed::Done {
                        value: ExpressionView::Assignment {
                            span: span_over(target.span(), value.span()),
                            target: Box::new(target),
                            value: Box::new(value),
                        },
                        next: end,
                    }
                } else {
                    Parsed::Failed {
                        error: failure(tokens, next, invalid_target_message()),
                        at: end,
                    }
                },
                Parsed::Failed { error, at } => Parsed::Failed { error, at },
            }
        } else {
            Parsed::Done { value: target, next }
        },
        Parsed::Failed { error, at } => Parsed::Failed { error, at },
    }
}

/// ternary := or ( "?" expression ":" ternary )?
#[verifier::opaque]
pub open spec fn ternary_at(tokens: Seq<TokenView>, pos: int) -> Parsed<ExpressionView>
    decreases tokens.len() - pos, 38int,
{
    match or_at(tokens, pos) {
        Parsed::Done { value: condition, next } => if !moved(tokens, pos, next) {
            stalled(tokens, pos)
        } else if kind_at(tokens, next) == TokenKind::Question {
            match expression_at(tokens, next + 1) {
                Parsed::Done { value: true_branch, next: colon } => if !moved(
                    tokens,
                    next + 1,
                    colon,
                ) {
                    stalled(tokens, next + 1)
                } else {
                    match expect(tokens, colon, TokenKind::Colon) {
                        Parsed::Done { value: _, next: after } => match ternary_at(tokens, after) {
                            Parsed::Done { value: false_branch, next: end } => Parsed::Done {
                                value: ExpressionView::Ternary {
                                    span: span_over(condition.span(), false_branch.span()),
                                    condition: Box::new(condition),
                                    true_branch: Box::new(true_branch),
                                    false_branch: Box::new(false_branch),
                                },
                                next: end,
                            },
                            Parsed::Failed { error, at } => Parsed::Failed { error, at },
                        },
                        Parsed::Failed { error, at } => Parsed::Failed { error, at },
                    }
                },
                Parsed::Failed { error, at } => Parsed::Failed { error, at },
            }
        } else {
            Parsed::Done { value: condition, next }
        },
        Parsed::Failed { error, at } => Parsed::Failed { error, at },
    }
}

/// or := and ( "or" or )?
#[verifier::opaque]
pub open spec fn or_at(tokens: Seq<TokenView>, pos: int) -> Parsed<ExpressionView>
    decreases tokens.len() - pos, 37int,
{
    match and_at(tokens, pos) {
        Parsed::Done { value: left, next } => if !moved(tokens, pos, next) {
            stalled(tokens, pos)
        } else if kind_at(tokens, next) == TokenKind::Or {
            match or_at(tokens, next + 1) {
                Parsed::Done { value: right, next: end } => Parsed::Done {
                    value: ExpressionView::Logical {
                        span: span_over(left.span(), right.span()),
                        left: Box::new(left),
                        right: Box::new(right),
                        operator: operator_at(tokens, next),
                    },
                    next: end,
                },
                Parsed::Failed { error, at } => Parsed::Failed { error, at },
            }
        } else {
            Parsed::Done { value: left, next }
        },
        Parsed::Failed { error, at } => Parsed::Failed { error, at },
    }
}

/// and := equality ( "and" and )?
#[verifier::opaque]
pub open spec fn and_at(tokens: Seq<TokenView>, pos: int) -> Parsed<ExpressionView>
    decreases tokens.len() - pos, 36int,
{
    match binary_at(tokens, pos, 0) {
        Parsed::Done { value: left, next } => if !moved(tokens, pos, next) {
            stalled(tokens, pos)
        } else if kind_at(tokens, next) == TokenKind::And {
            match and_at(tokens, next + 1) {
                Parsed::Done { value: right, next: end } => Parsed::Done {
                    value: ExpressionView::Logical {
                        span: span_over(left.span(), right.span()),
                        left: Box::new(left),
                        right: Box::new(right),
                        operator: operator_at(tokens, next),
                    },
                    next: end,
                },
                Parsed::Failed { error, at } => Parsed::Failed { error, at },
            }
        } else {
            Parsed::Done { value: left, next }
        },
        Parsed::Failed { error, at } => Parsed::Failed { error, at },
    }
}

/// The operand of a binary level: the next tighter level, or a unary expression.
#[verifier::opaque]
pub open spec fn operand_at(tokens: Seq<TokenView>, pos: int, level: nat) -> Parsed<ExpressionView>
    decreases tokens.len() - pos, level_rank(level) - 1,
{
    if level < 3 {
        binary_at(tokens, pos, level + 1)
    } else {
        unary_at(tokens, pos)
    }
}

/// level := operand ( operator operand )*, grouped to the left
#[verifier::opaque]
pub open spec fn binary_at(tokens: Seq<TokenView>, pos: int, level: nat) -> Parsed<ExpressionView>
    decreases tokens.len() - pos, level_rank(level),
{
    match operand_at(tokens, pos, level) {
        Parsed::Done { value: left, next } => if !moved(tokens, pos, next) {
            stalled(tokens, pos)
        } else {
            binary_rest(tokens, left, next, level)
        },
        Parsed::Failed { error, at } => Parsed::Failed { error, at },
    }
}

/// What follows the operand `left` of a binary level: each further operator and operand
/// makes a node whose left child is all that came before.
#[verifier::opaque]
pub open spec fn binary_rest(
    tokens: Seq<TokenView>,
    left: ExpressionView,
    pos: int,
    level: nat,
) -> Parsed<ExpressionView>
    decreases tokens.len() - pos, 0int,
{
    if level_operator(level, kind_at(tokens, pos)) {
        match operand_at(tokens, pos + 1, level) {
            Parsed::Done { value: right, next } => if !moved(tokens, pos + 1, next) {
                stalled(tokens, pos + 1)
            } else {
                binary_rest(
                    tokens,
                    ExpressionView::Binary {
                        span: span_over(left.span(), right.span()),
                        left: Box::new(left),
                        right: Box::new(right),
                        operator: operator_at(tokens, pos),
                    },
                    next,
                    level,
                )
            },
            Parsed::Failed { error, at } => Parsed::Failed { error, at },
        }
    } else {
        Parsed::Done { value: left, next: pos }
    }
}

/// unary := ( "!" | "-" ) unary | call
#[verifier::opaque]
pub open spec fn unary_at(tokens: Seq<TokenView>, pos: int) -> Parsed<ExpressionView>
    decreases tokens.len() - pos, 10int,
{
    if kind_at(tokens, pos) == TokenKind::Bang || kind_at(tokens, pos) == TokenKind::Minus {
        match unary_at(tokens, pos + 1) {
            Parsed::Done { value: right, next } => Parsed::Done {
                value: ExpressionView::Unary {
                    span: span_over(token_span(tokens[pos]), right.span()),
                    right: Box::new(right),
                    operator: operator_at(tokens, pos),
                },
                next,
            },
            Parsed::Failed { error, at } => Parsed::Failed { error, at },
        }
    } else {
        call_at(tokens, pos)
    }
}

/// call := primary ( "(" arguments ")" )*
#[verifier::opaque]
pub open spec fn call_at(tokens: Seq<TokenView>, pos: int) -> Parsed<ExpressionView>
    decreases tokens.len() - pos, 9int,
{
    match primary_at(tokens, pos) {
        Parsed::Done { value: callee, next } => if !moved(tokens, pos, next) {
            stalled(tokens, pos)
        } else {
            call_rest(tokens, callee, next)
        },
        Parsed::Failed { error, at } => Parsed::Failed { error, at },
    }
}

/// What follows the callee `callee`: each further argument list makes a call of all that
/// came before.
#[verifier::opaque]
pub open spec fn call_rest(tokens: Seq<TokenView>, callee: ExpressionView, pos: int) -> Parsed<
    ExpressionView,
>
    decreases tokens.len() - pos, 0int,
{
    if kind_at(tokens, pos) == TokenKind::LeftParen {
        match arguments_at(tokens, pos + 1, Seq::empty()) {
            Parsed::Done { value: arguments, next } => if !moved(tokens, pos, next) {
                stalled(tokens, pos)
            } else if kind_at(tokens, next) == TokenKind::RightParen {
                call_rest(
                    tokens,
                    ExpressionView::Call {
                        span: span_over(callee.span(), token_span(tokens[next])),
                        callee: Box::new(callee),
                        arguments,
                        end_paren: tokens[next],
                    },
                    next + 1,
                )
            } else {
                Parsed::Failed { error: failure(tokens, next, unclosed_call_message()), at: next }
            },
            Parsed::Failed { error, at } => Parsed::Failed { error, at },
        }
    } else {
        Parsed::Done { value: callee, next: pos }
    }
}

/// arguments := ( expression ( "," expression )* ","? )?
///
/// The list ends in front of the closing parenthesis, which is left for the caller.
#[verifier::opaque]
pub open spec fn arguments_at(
    tokens: Seq<TokenView>,
    pos: int,
    before: Seq<ExpressionView>,
) -> Parsed<Seq<ExpressionView>>
    decreases tokens.len() - pos, 42int,
{
    if kind_at(tokens, pos) == TokenKind::RightParen {
        Parsed::Done { value: before, next: pos }
    } else {
        match expression_at(tokens, pos) {
            Parsed::Done { value, next } => if !moved(tokens, pos, next) {
                stalled(tokens, pos)
            } else if kind_at(tokens, next) == TokenKind::Comma {
                arguments_at(tokens, next + 1, before.push(value))
            } else {
                Parsed::Done { value: before.push(value), next }
            },
            Parsed::Failed { error, at } => Parsed::Failed { error, at },
        }
    }
}

/// primary := STRING | NUMBER | "true" | "false" | "nil" | IDENTIFIER | "(" expression ")"
#[verifier::opaque]
pub open spec fn primary_at(tokens: Seq<TokenView>, pos: int) -> Parsed<ExpressionView>
    decreases tokens.len() - pos, 8int,
{
    let token = tokens[pos];
    if !(0 <= pos < tokens.len()) {
        Parsed::Failed {
            error: failure(tokens, pos, expression_expected_message(token.lexeme)),
            at: pos,
        }
    } else if literal_of(token) is Some {
        Parsed::Done {
            value: ExpressionView::Literal { span: token_span(token), value: literal_of(token)->0 },
            next: pos + 1,
        }
    } else if token.kind == TokenKind::Identifier {
        Parsed::Done {
            value: ExpressionView::Variable { span: token_span(token), name: token.lexeme },
            next: pos + 1,
        }
    } else if token.kind == TokenKind::LeftParen {
        match expression_at(tokens, pos + 1) {
            Parsed::Done { value: inner, next } => if !moved(tokens, pos + 1, next) {
                stalled(tokens, pos + 1)
            } else {
                match expect(tokens, next, TokenKind::RightParen) {
                    Parsed::Done { value: close, next: end } => Parsed::Done {
                        value: ExpressionView::Grouping {
                            span: span_over(token_span(token), token_span(close)),
                            expression: Box::new(inner),
                        },
                        next: end,
                    },
                    Parsed::Failed { error, at } => Parsed::Failed { error, at },
                }
            },
            Parsed::Failed { error, at } => Parsed::Failed { error, at },
        }
    } else {
        Parsed::Failed {
            error: failure(tokens, pos, expression_expected_message(token.lexeme)),
            at: pos,
        }
    }
}

} // verus!
