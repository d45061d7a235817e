//! What holds of the grammar whatever the tokens: every construct consumes at least one
//! token, recovery only moves forward, and a run reports each failed statement once.

use vstd::prelude::*;
use crate::ast::expression::ExpressionView;
use crate::lexer::token::TokenView;
use crate::lexer::token_kind::TokenKind;
use crate::ast::statement::StatementView;
use super::statement_rules::{
    block_at, block_rest, condition_and_body_at, declaration_at, expression_statement_at, for_at,
    function_at, if_at, initializer_at, keyword_statement_at, optional_expression_at,
    parameters_at, print_at, program_from, resume_after, return_at, statement_at,
    synchronize_from, while_at, Gathered,
};
use super::expression_rules::{
    and_at, arguments_at, assignment_at, binary_at, binary_rest, call_at, call_rest, expect,
    expression_at, kind_at, moved, operand_at, or_at, primary_at, ternary_at, unary_at, Parsed,
};

verus! {

/// A result that, where it is a construct, ends behind at least one token from `pos` and
/// inside the tokens.
pub open spec fn advances<T>(tokens: Seq<TokenView>, pos: int, parsed: Parsed<T>) -> bool {
    parsed matches Parsed::Done { next, .. } ==> moved(tokens, pos, next)
}

/// A result that, where it is a construct, ends at `pos` or behind it and inside the tokens.
pub open spec fn holds<T>(tokens: Seq<TokenView>, pos: int, parsed: Parsed<T>) -> bool {
    parsed matches Parsed::Done { next, .. } ==> pos <= next <= tokens.len()
}

/// An expression consumes at least one token.
pub proof fn lemma_expression_advances(tokens: Seq<TokenView>, pos: int)
    ensures
        advances(tokens, pos, expression_at(tokens, pos)),
    decreases tokens.len() - pos, 40int,
{
    reveal(expression_at);
    reveal(assignment_at);
    lemma_assignment_advances(tokens, pos);
}

/// An assignment consumes at least one token.
pub proof fn lemma_assignment_advances(tokens: Seq<TokenView>, pos: int)
    ensures
        advances(tokens, pos, assignment_at(tokens, pos)),
    decreases tokens.len() - pos, 39int,
{
    reveal(assignment_at);
    reveal(ternary_at);
    lemma_ternary_advances(tokens, pos);
    if let Parsed::Done { next, .. } = ternary_at(tokens, pos) {
        if moved(tokens, pos, next) && kind_at(tokens, next) == TokenKind::Equal {
            lemma_assignment_advances(tokens, next + 1);
        }
    }
}

/// A ternary expression consumes at least one token.
pub proof fn lemma_ternary_advances(tokens: Seq<TokenView>, pos: int)
    ensures
        advances(tokens, pos, ternary_at(tokens, pos)),
    decreases tokens.len() - pos, 38int,
{
    reveal(ternary_at);
    reveal(or_at);
    reveal(expression_at);
    lemma_or_advances(tokens, pos);
    if let Parsed::Done { next, .. } = or_at(tokens, pos) {
        if moved(tokens, pos, next) && kind_at(tokens, next) == TokenKind::Question {
            lemma_expression_advances(tokens, next + 1);
            if let Parsed::Done { next: colon, .. } = expression_at(tokens, next + 1) {
                if moved(tokens, next + 1, colon) {
                    if let Parsed::Done { next: after, .. } = expect(
                        tokens,
                        colon,
                        TokenKind::Colon,
                    ) {
                        lemma_ternary_advances(tokens, after);
                    }
                }
            }
        }
    }
}

/// A disjunction consumes at least one token.
pub proof fn lemma_or_advances(tokens: Seq<TokenView>, pos: int)
    ensures
        advances(tokens, pos, or_at(tokens, pos)),
    decreases tokens.len() - pos, 37int,
{
    reveal(or_at);
    reveal(and_at);
    lemma_and_advances(tokens, pos);
    if let Parsed::Done { next, .. } = and_at(tokens, pos) {
        if moved(tokens, pos, next) && kind_at(tokens, next) == TokenKind::Or {
            lemma_or_advances(tokens, next + 1);
        }
    }
}

/// A conjunction consumes at least one token.
pub proof fn lemma_and_advances(tokens: Seq<TokenView>, pos: int)
    ensures
        advances(tokens, pos, and_at(tokens, pos)),
    decreases tokens.len() - pos, 36int,
{
    reveal(and_at);
    reveal(binary_at);
    lemma_binary_advances(tokens, pos, 0);
    if let Parsed::Done { next, .. } = binary_at(tokens, pos, 0) {
        if moved(tokens, pos, next) && kind_at(tokens, next) == TokenKind::And {
            lemma_and_advances(tokens, next + 1);
        }
    }
}

/// An operand of a binary level consumes at least one token.
pub proof fn lemma_operand_advances(tokens: Seq<TokenView>, pos: int, level: nat)
    ensures
        advances(tokens, pos, operand_at(tokens, pos, level)),
    decreases tokens.len() - pos, super::expression_rules::level_rank(level) - 1,
{
    reveal(operand_at);
    reveal(binary_at);
    reveal(unary_at);
    if level < 3 {
        lemma_binary_advances(tokens, pos, level + 1);
    } else {
        lemma_unary_advances(tokens, pos);
    }
}

/// A binary level consumes at least one token.
pub proof fn lemma_binary_advances(tokens: Seq<TokenView>, pos: int, level: nat)
    ensures
        advances(tokens, pos, binary_at(tokens, pos, level)),
    decreases tokens.len() - pos, super::expression_rules::level_rank(level),
{
    reveal(binary_at);
    reveal(operand_at);
    reveal(binary_rest);
    lemma_operand_advances(tokens, pos, level);
    if let Parsed::Done { value, next } = operand_at(tokens, pos, level) {
        if moved(tokens, pos, next) {
            lemma_binary_rest_holds(tokens, value, next, level);
        }
    }
}

/// What follows an operand ends where it begins or behind it.
pub proof fn lemma_binary_rest_holds(
    tokens: Seq<TokenView>,
    left: ExpressionView,
    pos: int,
    level: nat,
)
    requires
        pos <= tokens.len(),
    ensures
        holds(tokens, pos, binary_rest(tokens, left, pos, level)),
    decreases tokens.len() - pos, 0int,
{
    reveal(binary_rest);
    reveal(operand_at);
    if super::expression_rules::level_operator(level, kind_at(tokens, pos)) {
        lemma_operand_advances(tokens, pos + 1, level);
        if let Parsed::Done { value: right, next } = operand_at(tokens, pos + 1, level) {
            if moved(tokens, pos + 1, next) {
                lemma_binary_rest_holds(
                    tokens,
                    ExpressionView::Binary {
                        span: super::expression_rules::span_over(left.span(), right.span()),
                        left: Box::new(left),
                        right: Box::new(right),
                        operator: super::expression_rules::operator_at(tokens, pos),
                    },
                    next,
                    level,
                );
            }
        }
    }
}

/// A unary expression consumes at least one token.
pub proof fn lemma_unary_advances(tokens: Seq<TokenView>, pos: int)
    ensures
        advances(tokens, pos, unary_at(tokens, pos)),
    decreases tokens.len() - pos, 10int,
{
    reveal(unary_at);
    reveal(call_at);
    if kind_at(tokens, pos) == TokenKind::Bang || kind_at(tokens, pos) == TokenKind::Minus {
        lemma_unary_advances(tokens, pos + 1);
    } else {
        lemma_call_advances(tokens, pos);
    }
}

/// A call consumes at least one token.
pub proof fn lemma_call_advances(tokens: Seq<TokenView>, pos: int)
    ensures
        advances(tokens, pos, call_at(tokens, pos)),
    decreases tokens.len() - pos, 9int,
{
    reveal(call_at);
    reveal(primary_at);
    reveal(call_rest);
    lemma_primary_advances(tokens, pos);
    if let Parsed::Done { value, next } = primary_at(tokens, pos) {
        if moved(tokens, pos, next) {
            lemma_call_rest_holds(tokens, value, next);
        }
    }
}

/// What follows a callee ends where it begins or behind it.
pub proof fn lemma_call_rest_holds(tokens: Seq<TokenView>, callee: ExpressionView, pos: int)
    requires
        pos <= tokens.len(),
    ensures
        holds(tokens, pos, call_rest(tokens, callee, pos)),
    decreases tokens.len() - pos, 0int,
{
    reveal(call_rest);
    reveal(arguments_at);
    if kind_at(tokens, pos) == TokenKind::LeftParen {
        lemma_arguments_hold(tokens, pos + 1, Seq::empty());
        if let Parsed::Done { value: arguments, next } = arguments_at(
            tokens,
            pos + 1,
            Seq::empty(),
        ) {
            if moved(tokens, pos, next) && kind_at(tokens, next) == TokenKind::RightParen {
                lemma_call_rest_holds(
                    tokens,
                    ExpressionView::Call {
                        span: super::expression_rules::span_over(
                            callee.span(),
                            super::expression_rules::token_span(tokens[next]),
                        ),
                        callee: Box::new(callee),
                        arguments,
                        end_paren: tokens[next],
                    },
                    next + 1,
                );
            }
        }
    }
}

/// A list of arguments ends where it begins or behind it.
pub proof fn lemma_arguments_hold(tokens: Seq<TokenView>, pos: int, before: Seq<ExpressionView>)
    requires
        pos <= tokens.len(),
    ensures
        holds(tokens, pos, arguments_at(tokens, pos, before)),
    decreases tokens.len() - pos, 42int,
{
    reveal(arguments_at);
    reveal(expression_at);
    if kind_at(tokens, pos) != TokenKind::RightParen {
        lemma_expression_advances(tokens, pos);
        if let Parsed::Done { value, next } = expression_at(tokens, pos) {
            if moved(tokens, pos, next) && kind_at(tokens, next) == TokenKind::Comma {
                lemma_arguments_hold(tokens, next + 1, before.push(value));
            }
        }
    }
}

/// A primary expression consumes at least one token.
pub proof fn lemma_primary_advances(tokens: Seq<TokenView>, pos: int)
    ensures
        advances(tokens, pos, primary_at(tokens, pos)),
    decreases tokens.len() - pos, 8int,
{
    reveal(primary_at);
    reveal(expression_at);
    if 0 <= pos < tokens.len() && tokens[pos].kind == TokenKind::LeftParen {
        lemma_expression_advances(tokens, pos + 1);
    }
}

/// A list of parameters consumes at least one token.
pub proof fn lemma_parameters_advance(tokens: Seq<TokenView>, pos: int, before: Seq<TokenView>)
    ensures
        advances(tokens, pos, parameters_at(tokens, pos, before)),
    decreases tokens.len() - pos,
{
    reveal(parameters_at);
    if let Parsed::Done { value, next } = expect(tokens, pos, TokenKind::Identifier) {
        if kind_at(tokens, next) == TokenKind::Comma {
            lemma_parameters_advance(tokens, next + 1, before.push(value));
        }
    }
}

/// An optional expression ends where it begins or behind it.
pub proof fn lemma_optional_expression_holds(tokens: Seq<TokenView>, pos: int, stop: TokenKind)
    requires
        pos <= tokens.len(),
    ensures
        holds(tokens, pos, optional_expression_at(tokens, pos, stop)),
{
    reveal(optional_expression_at);
    lemma_expression_advances(tokens, pos);
}

/// A statement consumes at least one token.
pub proof fn lemma_statement_advances(tokens: Seq<TokenView>, pos: int)
    ensures
        advances(tokens, pos, statement_at(tokens, pos)),
    decreases tokens.len() - pos, 30int,
{
    reveal(statement_at);
    reveal(function_at);
    reveal(declaration_at);
    reveal(while_at);
    reveal(for_at);
    reveal(if_at);
    reveal(print_at);
    reveal(return_at);
    reveal(block_at);
    reveal(expression_statement_at);
    match kind_at(tokens, pos) {
        TokenKind::Fun => lemma_function_advances(tokens, pos),
        TokenKind::Var => lemma_declaration_advances(tokens, pos),
        TokenKind::While => lemma_while_advances(tokens, pos),
        TokenKind::For => lemma_for_advances(tokens, pos),
        TokenKind::If => lemma_if_advances(tokens, pos),
        TokenKind::Print => lemma_print_advances(tokens, pos),
        TokenKind::Return => lemma_return_advances(tokens, pos),
        TokenKind::LeftBrace => lemma_block_advances(tokens, pos),
        _ => lemma_expression_statement_advances(tokens, pos),
    }
}

/// A function declaration consumes at least one token.
pub proof fn lemma_function_advances(tokens: Seq<TokenView>, pos: int)
    ensures
        advances(tokens, pos, function_at(tokens, pos)),
    decreases tokens.len() - pos, 25int,
{
    reveal(function_at);
    reveal(block_at);
    if kind_at(tokens, pos) == TokenKind::Fun && kind_at(tokens, pos + 1)
        == TokenKind::Identifier && kind_at(tokens, pos + 2) == TokenKind::LeftParen {
        let at_parameters = pos + 3;
        let parameters = if kind_at(tokens, at_parameters) == TokenKind::RightParen {
            Parsed::Done { value: Seq::<TokenView>::empty(), next: at_parameters }
        } else {
            parameters_at(tokens, at_parameters, Seq::empty())
        };
        lemma_parameters_advance(tokens, at_parameters, Seq::empty());
        if let Parsed::Done { next: at_close, .. } = parameters {
            if moved(tokens, pos, at_close) && kind_at(tokens, at_close) == TokenKind::RightParen {
                lemma_block_advances(tokens, at_close + 1);
            }
        }
    }
}

/// A variable declaration consumes at least one token.
pub proof fn lemma_declaration_advances(tokens: Seq<TokenView>, pos: int)
    ensures
        advances(tokens, pos, declaration_at(tokens, pos)),
{
    reveal(declaration_at);
    reveal(expression_at);
    lemma_expression_advances(tokens, pos + 3);
}

/// A condition and its body consume at least one token.
pub proof fn lemma_condition_and_body_advance(tokens: Seq<TokenView>, pos: int)
    ensures
        advances(tokens, pos, condition_and_body_at(tokens, pos)),
    decreases tokens.len() - pos, 24int,
{
    reveal(condition_and_body_at);
    reveal(expression_at);
    reveal(block_at);
    if kind_at(tokens, pos) == TokenKind::LeftParen {
        lemma_expression_advances(tokens, pos + 1);
        if let Parsed::Done { next: at_close, .. } = expression_at(tokens, pos + 1) {
            if moved(tokens, pos + 1, at_close) && kind_at(tokens, at_close)
                == TokenKind::RightParen {
                lemma_block_advances(tokens, at_close + 1);
            }
        }
    }
}

/// A `while` statement consumes at least one token.
pub proof fn lemma_while_advances(tokens: Seq<TokenView>, pos: int)
    ensures
        advances(tokens, pos, while_at(tokens, pos)),
    decreases tokens.len() - pos, 25int,
{
    reveal(while_at);
    reveal(condition_and_body_at);
    if kind_at(tokens, pos) == TokenKind::While {
        lemma_condition_and_body_advance(tokens, pos + 1);
    }
}

/// The first clause of a `for` consumes at least one token.
pub proof fn lemma_initializer_advances(tokens: Seq<TokenView>, pos: int)
    ensures
        advances(tokens, pos, initializer_at(tokens, pos)),
{
    reveal(initializer_at);
    reveal(declaration_at);
    reveal(expression_statement_at);
    lemma_declaration_advances(tokens, pos);
    lemma_expression_statement_advances(tokens, pos);
}

/// A `for` statement consumes at least one token.
pub proof fn lemma_for_advances(tokens: Seq<TokenView>, pos: int)
    ensures
        advances(tokens, pos, for_at(tokens, pos)),
    decreases tokens.len() - pos, 27int,
{
    reveal(for_at);
    reveal(initializer_at);
    reveal(optional_expression_at);
    reveal(block_at);
    if kind_at(tokens, pos) == TokenKind::For && kind_at(tokens, pos + 1) == TokenKind::LeftParen {
        lemma_initializer_advances(tokens, pos + 2);
        if let Parsed::Done { next: at_condition, .. } = initializer_at(tokens, pos + 2) {
            lemma_optional_expression_holds(tokens, at_condition, TokenKind::Semicolon);
            if let Parsed::Done { next: at_semicolon, .. } = optional_expression_at(
                tokens,
                at_condition,
                TokenKind::Semicolon,
            ) {
                if kind_at(tokens, at_semicolon) == TokenKind::Semicolon {
                    lemma_optional_expression_holds(
                        tokens,
                        at_semicolon + 1,
                        TokenKind::RightParen,
                    );
                    if let Parsed::Done { next: at_close, .. } = optional_expression_at(
                        tokens,
                        at_semicolon + 1,
                        TokenKind::RightParen,
                    ) {
                        if kind_at(tokens, at_close) == TokenKind::RightParen {
                            lemma_block_advances(tokens, at_close + 1);
                        }
                    }
                }
            }
        }
    }
}

/// A block consumes at least one token.
pub proof fn lemma_block_advances(tokens: Seq<TokenView>, pos: int)
    ensures
        advances(tokens, pos, block_at(tokens, pos)),
    decreases tokens.len() - pos, 25int,
{
    reveal(block_at);
    reveal(block_rest);
    if kind_at(tokens, pos) == TokenKind::LeftBrace {
        lemma_block_rest_advances(tokens, pos + 1, Seq::empty(), tokens[pos]);
    }
}

/// The rest of a block consumes at least one token: its closing brace.
pub proof fn lemma_block_rest_advances(
    tokens: Seq<TokenView>,
    pos: int,
    before: Seq<StatementView>,
    open: TokenView,
)
    ensures
        advances(tokens, pos, block_rest(tokens, pos, before, open)),
    decreases tokens.len() - pos, 35int,
{
    reveal(block_rest);
    reveal(statement_at);
    if kind_at(tokens, pos) != TokenKind::RightBrace {
        lemma_statement_advances(tokens, pos);
        if let Parsed::Done { value, next } = statement_at(tokens, pos) {
            if moved(tokens, pos, next) {
                lemma_block_rest_advances(tokens, next, before.push(value), open);
            }
        }
    }
}

/// An expression statement consumes at least one token.
pub proof fn lemma_expression_statement_advances(tokens: Seq<TokenView>, pos: int)
    ensures
        advances(tokens, pos, expression_statement_at(tokens, pos)),
{
    reveal(expression_statement_at);
    reveal(expression_at);
    lemma_expression_advances(tokens, pos);
}

/// An `if` statement consumes at least one token.
pub proof fn lemma_if_advances(tokens: Seq<TokenView>, pos: int)
    ensures
        advances(tokens, pos, if_at(tokens, pos)),
    decreases tokens.len() - pos, 25int,
{
    reveal(if_at);
    reveal(condition_and_body_at);
    reveal(block_at);
    if kind_at(tokens, pos) == TokenKind::If {
        lemma_condition_and_body_advance(tokens, pos + 1);
        if let Parsed::Done { next: at_else, .. } = condition_and_body_at(tokens, pos + 1) {
            if moved(tokens, pos, at_else) && kind_at(tokens, at_else) == TokenKind::Else {
                if kind_at(tokens, at_else + 1) == TokenKind::If {
                    lemma_if_advances(tokens, at_else + 1);
                } else {
                    lemma_block_advances(tokens, at_else + 1);
                }
            }
        }
    }
}

/// A keyword statement consumes at least one token.
pub proof fn lemma_keyword_statement_advances(tokens: Seq<TokenView>, pos: int, keyword: TokenKind)
    ensures
        advances(tokens, pos, keyword_statement_at(tokens, pos, keyword)),
{
    reveal(keyword_statement_at);
    reveal(expression_at);
    lemma_expression_advances(tokens, pos + 1);
}

/// A `print` statement consumes at least one token.
pub proof fn lemma_print_advances(tokens: Seq<TokenView>, pos: int)
    ensures
        advances(tokens, pos, print_at(tokens, pos)),
{
    reveal(print_at);
    reveal(keyword_statement_at);
    lemma_keyword_statement_advances(tokens, pos, TokenKind::Print);
}

/// A `return` statement consumes at least one token.
pub proof fn lemma_return_advances(tokens: Seq<TokenView>, pos: int)
    ensures
        advances(tokens, pos, return_at(tokens, pos)),
{
    reveal(return_at);
    reveal(keyword_statement_at);
    lemma_keyword_statement_advances(tokens, pos, TokenKind::Return);
}

/// Recovery never goes back and never leaves the tokens. Where it stops inside them, it
/// stands behind a semicolon, or in front of a token that begins a statement, or at an
/// end-of-input token.
pub proof fn lemma_synchronize_stops(tokens: Seq<TokenView>, pos: int)
    requires
        0 <= pos <= tokens.len(),
    ensures
        pos <= synchronize_from(tokens, pos) <= tokens.len(),
        ({
            let stop = synchronize_from(tokens, pos);
            ||| stop == tokens.len()
            ||| tokens[stop].kind == TokenKind::Eof
            ||| tokens[stop].kind.starts_statement()
            ||| (pos < stop && tokens[stop - 1].kind == TokenKind::Semicolon)
        }),
    decreases tokens.len() - pos,
{
    reveal(synchronize_from);
    if pos < tokens.len() && tokens[pos].kind != TokenKind::Eof && tokens[pos].kind
        != TokenKind::Semicolon && !tokens[pos].kind.starts_statement() {
        lemma_synchronize_stops(tokens, pos + 1);
    }
}

/// A run over the tokens keeps what was gathered before it, and adds at most one statement
/// or one error for each token from `pos` on: no error is reported twice, and the run ends.
pub proof fn lemma_program_bound(tokens: Seq<TokenView>, pos: int, before: Gathered)
    requires
        0 <= pos <= tokens.len(),
    ensures
        ({
            let after = program_from(tokens, pos, before);
            &&& before.body.is_prefix_of(after.body)
            &&& before.errors.is_prefix_of(after.errors)
            &&& after.body.len() + after.errors.len() <= before.body.len() + before.errors.len()
                + (tokens.len() - pos)
        }),
    decreases tokens.len() - pos,
{
    reveal(program_from);
    if kind_at(tokens, pos) != TokenKind::Eof {
        lemma_statement_advances(tokens, pos);
        match statement_at(tokens, pos) {
            Parsed::Done { value, next } => {
                let grown = Gathered { body: before.body.push(value), errors: before.errors };
                lemma_program_bound(tokens, next, grown);
                let after = program_from(tokens, next, grown);
                assert(before.body.is_prefix_of(grown.body));
                assert(before.body.is_prefix_of(after.body));
            },
            Parsed::Failed { error, at } => {
                let grown = Gathered { body: before.body, errors: before.errors.push(error) };
                let next = resume_after(tokens, pos, at);
                lemma_program_bound(tokens, next, grown);
                let after = program_from(tokens, next, grown);
                assert(before.errors.is_prefix_of(grown.errors));
                assert(before.errors.is_prefix_of(after.errors));
            },
        }
    }
}

/// What a run gathers does not depend on what was gathered before it: it is added behind.
pub proof fn lemma_program_appends(tokens: Seq<TokenView>, pos: int, before: Gathered)
    requires
        0 <= pos <= tokens.len(),
    ensures
        ({
            let fresh = program_from(
                tokens,
                pos,
                Gathered { body: Seq::empty(), errors: Seq::empty() },
            );
            let after = program_from(tokens, pos, before);
            &&& after.body == before.body + fresh.body
            &&& after.errors == before.errors + fresh.errors
        }),
    decreases tokens.len() - pos,
{
    reveal(program_from);
    let empty = Gathered { body: Seq::empty(), errors: Seq::empty() };
    let fresh = program_from(tokens, pos, empty);
    let after = program_from(tokens, pos, before);
    if kind_at(tokens, pos) != TokenKind::Eof {
        lemma_statement_advances(tokens, pos);
        match statement_at(tokens, pos) {
            Parsed::Done { value, next } => {
                let one = Gathered { body: empty.body.push(value), errors: empty.errors };
                let grown = Gathered { body: before.body.push(value), errors: before.errors };
                lemma_program_appends(tokens, next, one);
                lemma_program_appends(tokens, next, grown);
                let rest = program_from(tokens, next, empty);
                assert(after.body =~= before.body + fresh.body);
                assert(after.errors =~= before.errors + fresh.errors);
            },
            Parsed::Failed { error, at } => {
                let next = resume_after(tokens, pos, at);
                let one = Gathered { body: empty.body, errors: empty.errors.push(error) };
                let grown = Gathered { body: before.body, errors: before.errors.push(error) };
                lemma_program_appends(tokens, next, one);
                lemma_program_appends(tokens, next, grown);
                assert(after.body =~= before.body + fresh.body);
                assert(after.errors =~= before.errors + fresh.errors);
            },
        }
    } else {
        assert(after.body =~= before.body + fresh.body);
        assert(after.errors =~= before.errors + fresh.errors);
    }
}

/// A statement that parses adds no error to a run: the errors of the run are those of the
/// run behind the statement.
pub proof fn lemma_valid_statement_adds_no_error(tokens: Seq<TokenView>, pos: int)
    requires
        0 <= pos < tokens.len(),
        kind_at(tokens, pos) != TokenKind::Eof,
        statement_at(tokens, pos) is Done,
    ensures
        program_from(
            tokens,
            pos,
            Gathered { body: Seq::empty(), errors: Seq::empty() },
        ).errors == program_from(
            tokens,
            statement_at(tokens, pos)->next,
            Gathered { body: Seq::empty(), errors: Seq::empty() },
        ).errors,
{
    reveal(program_from);
    let empty = Gathered { body: Seq::empty(), errors: Seq::empty() };
    lemma_statement_advances(tokens, pos);
    let next = statement_at(tokens, pos)->next;
    let value = statement_at(tokens, pos)->value;
    lemma_program_appends(tokens, next, Gathered { body: empty.body.push(value), errors: empty.errors });
    assert(empty.errors + program_from(tokens, next, empty).errors =~= program_from(
        tokens,
        next,
        empty,
    ).errors);
}

/// A statement that fails adds exactly its error to a run: the errors of the run are that
/// error, followed by those of the run from where parsing resumes. So a run with one
/// malformed statement, in front of and behind which every statement parses, reports exactly
/// one error.
pub proof fn lemma_failed_statement_adds_one_error(tokens: Seq<TokenView>, pos: int)
    requires
        0 <= pos < tokens.len(),
        kind_at(tokens, pos) != TokenKind::Eof,
        statement_at(tokens, pos) is Failed,
    ensures
        program_from(
            tokens,
            pos,
            Gathered { body: Seq::empty(), errors: Seq::empty() },
        ).errors == seq![statement_at(tokens, pos)->error] + program_from(
            tokens,
            resume_after(tokens, pos, statement_at(tokens, pos)->at),
            Gathered { body: Seq::empty(), errors: Seq::empty() },
        ).errors,
        pos < resume_after(tokens, pos, statement_at(tokens, pos)->at) <= tokens.len(),
{
    reveal(program_from);
    let empty = Gathered { body: Seq::empty(), errors: Seq::empty() };
    let error = statement_at(tokens, pos)->error;
    let next = resume_after(tokens, pos, statement_at(tokens, pos)->at);
    lemma_program_appends(tokens, next, Gathered { body: empty.body, errors: empty.errors.push(error) });
    assert(empty.errors.push(error) =~= seq![error]);
}

} // verus!
