//! The grammar of statements and the run over a whole text, as functions on its tokens.
//!
//! The span of a statement ends with the last token that the statement consumed.

use vstd::prelude::*;
use crate::ast::expression::ExpressionView;
use crate::ast::span::Span;
use crate::ast::statement::StatementView;
use crate::ast::AstView;
use crate::lexer::keyword::default_table;
use crate::lexer::rules::lex;
use crate::lexer::token::TokenView;
use crate::text::byte_len;
use crate::lexer::token_kind::TokenKind;
use crate::lox_error::LoxErrorView;
use super::expression_rules::{
    expect, expression_at, failure, kind_at, moved, span_over, stalled, token_span, Parsed,
};

verus! {

pub open spec fn function_name_message(found: Seq<char>) -> Seq<char> {
    "Expected function name, got \""@ + found + "\""@
}

/// parameters := IDENTIFIER ( "," IDENTIFIER )*
#[verifier::opaque]
pub open spec fn parameters_at(tokens: Seq<TokenView>, pos: int, before: Seq<TokenView>) -> Parsed<
    Seq<TokenView>,
>
    decreases tokens.len() - pos,
{
    match expect(tokens, pos, TokenKind::Identifier) {
        Parsed::Done { value: parameter, next } => if kind_at(tokens, next) == TokenKind::Comma {
            parameters_at(tokens, next + 1, before.push(parameter))
        } else {
            Parsed::Done { value: before.push(parameter), next }
        },
        Parsed::Failed { error, at } => Parsed::Failed { error, at },
    }
}

/// An optional expression in front of the token kind `stop`: absent where `stop` comes first.
#[verifier::opaque]
pub open spec fn optional_expression_at(tokens: Seq<TokenView>, pos: int, stop: TokenKind) -> Parsed<
    Option<ExpressionView>,
> {
    if kind_at(tokens, pos) == stop {
        Parsed::Done { value: None, next: pos }
    } else {
        match expression_at(tokens, pos) {
            Parsed::Done { value, next } => Parsed::Done { value: Some(value), next },
            Parsed::Failed { error, at } => Parsed::Failed { error, at },
        }
    }
}

/// statement := function | declaration | while | for | if | print | return | block
///            | expression-statement
#[verifier::opaque]
pub open spec fn statement_at(tokens: Seq<TokenView>, pos: int) -> Parsed<StatementView>
    decreases tokens.len() - pos, 30int,
{
    match kind_at(tokens, pos) {
        TokenKind::Fun => function_at(tokens, pos),
        TokenKind::Var => declaration_at(tokens, pos),
        TokenKind::While => while_at(tokens, pos),
        TokenKind::For => for_at(tokens, pos),
        TokenKind::If => if_at(tokens, pos),
        TokenKind::Print => print_at(tokens, pos),
        TokenKind::Return => return_at(tokens, pos),
        TokenKind::LeftBrace => block_at(tokens, pos),
        _ => expression_statement_at(tokens, pos),
    }
}

/// function := "fun" IDENTIFIER "(" parameters? ")" block
#[verifier::opaque]
pub open spec fn function_at(tokens: Seq<TokenView>, pos: int) -> Parsed<StatementView>
    decreases tokens.len() - pos, 25int,
{
    match expect(tokens, pos, TokenKind::Fun) {
        Parsed::Done { value: keyword, next: at_name } => if kind_at(tokens, at_name)
            != TokenKind::Identifier {
            Parsed::Failed {
                error: failure(tokens, at_name, function_name_message(tokens[at_name].lexeme)),
                at: at_name,
            }
        } else {
            match expect(tokens, at_name + 1, TokenKind::LeftParen) {
                Parsed::Done { value: _, next: at_parameters } => {
                    let parameters = if kind_at(tokens, at_parameters) == TokenKind::RightParen {
                        Parsed::Done { value: Seq::empty(), next: at_parameters }
                    } else {
                        parameters_at(tokens, at_parameters, Seq::empty())
                    };
                    match parameters {
                        Parsed::Done { value: params, next: at_close } => if !moved(
                            tokens,
                            pos,
                            at_close,
                        ) {
                            stalled(tokens, pos)
                        } else {
                            match expect(tokens, at_close, TokenKind::RightParen) {
                                Parsed::Done { value: _, next: at_body } => match block_at(
                                    tokens,
                                    at_body,
                                ) {
                                    Parsed::Done { value: body, next } => Parsed::Done {
                                        value: StatementView::Function {
                                            span: span_over(token_span(keyword), body.span()),
                                            name: tokens[at_name],
                                            params,
                                            body: Box::new(body),
                                        },
                                        next,
                                    },
                                    Parsed::Failed { error, at } => Parsed::Failed { error, at },
                                },
                                Parsed::Failed { error, at } => Parsed::Failed { error, at },
                            }
                        },
                        Parsed::Failed { error, at } => Parsed::Failed { error, at },
                    }
                },
                Parsed::Failed { error, at } => Parsed::Failed { error, at },
            }
        },
        Parsed::Failed { error, at } => Parsed::Failed { error, at },
    }
}

/// declaration := "var" IDENTIFIER ( "=" expression )? ";"
#[verifier::opaque]
pub open spec fn declaration_at(tokens: Seq<TokenView>, pos: int) -> Parsed<StatementView> {
    match expect(tokens, pos, TokenKind::Var) {
        Parsed::Done { value: keyword, next: at_name } => match expect(
            tokens,
            at_name,
            TokenKind::Identifier,
        ) {
            Parsed::Done { value: name, next: after_name } => {
                let initial = if kind_at(tokens, after_name) == TokenKind::Equal {
                    match expression_at(tokens, after_name + 1) {
                        Parsed::Done { value, next } => Parsed::Done { value: Some(value), next },
                        Parsed::Failed { error, at } => Parsed::Failed { error, at },
                    }
                } else {
                    Parsed::Done { value: None, next: after_name }
                };
                match initial {
                    Parsed::Done { value, next: at_end } => match expect(
                        tokens,
                        at_end,
                        TokenKind::Semicolon,
                    ) {
                        Parsed::Done { value: semicolon, next } => Parsed::Done {
                            value: StatementView::Declaration {
                                span: span_over(token_span(keyword), token_span(semicolon)),
                                name,
                                value,
                            },
                            next,
                        },
                        Parsed::Failed { error, at } => Parsed::Failed { error, at },
                    },
                    Parsed::Failed { error, at } => Parsed::Failed { error, at },
                }
            },
            Parsed::Failed { error, at } => Parsed::Failed { error, at },
        },
        Parsed::Failed { error, at } => Parsed::Failed { error, at },
    }
}

/// "(" expression ")" block, as it follows `while` and `if`: the condition and the body.
#[verifier::opaque]
pub open spec fn condition_and_body_at(tokens: Seq<TokenView>, pos: int) -> Parsed<
    (ExpressionView, StatementView),
>
    decreases tokens.len() - pos, 24int,
{
    match expect(tokens, pos, TokenKind::LeftParen) {
        Parsed::Done { value: _, next: at_condition } => match expression_at(
            tokens,
            at_condition,
        ) {
            Parsed::Done { value: condition, next: at_close } => if !moved(
                tokens,
                at_condition,
                at_close,
            ) {
                stalled(tokens, at_condition)
            } else {
                match expect(tokens, at_close, TokenKind::RightParen) {
                    Parsed::Done { value: _, next: at_body } => match block_at(tokens, at_body) {
                        Parsed::Done { value: body, next } => Parsed::Done {
                            value: (condition, body),
                            next,
                        },
                        Parsed::Failed { error, at } => Parsed::Failed { error, at },
                    },
                    Parsed::Failed { error, at } => Parsed::Failed { error, at },
                }
            },
            Parsed::Failed { error, at } => Parsed::Failed { error, at },
        },
        Parsed::Failed { error, at } => Parsed::Failed { error, at },
    }
}

/// while := "while" "(" expression ")" block
#[verifier::opaque]
pub open spec fn while_at(tokens: Seq<TokenView>, pos: int) -> Parsed<StatementView>
    decreases tokens.len() - pos, 25int,
{
    match expect(tokens, pos, TokenKind::While) {
        Parsed::Done { value: keyword, next: at_paren } => match condition_and_body_at(
            tokens,
            at_paren,
        ) {
            Parsed::Done { value: (condition, body), next } => Parsed::Done {
                value: StatementView::While {
                    span: span_over(token_span(keyword), body.span()),
                    condition,
                    body: Box::new(body),
                },
                next,
            },
            Parsed::Failed { error, at } => Parsed::Failed { error, at },
        },
        Parsed::Failed { error, at } => Parsed::Failed { error, at },
    }
}

/// The first clause of a `for`: nothing but its semicolon, a declaration, or an expression
/// statement.
#[verifier::opaque]
pub open spec fn initializer_at(tokens: Seq<TokenView>, pos: int) -> Parsed<Option<StatementView>> {
    if kind_at(tokens, pos) == TokenKind::Semicolon {
        Parsed::Done { value: None, next: pos + 1 }
    } else {
        let statement = if kind_at(tokens, pos) == TokenKind::Var {
            declaration_at(tokens, pos)
        } else {
            expression_statement_at(tokens, pos)
        };
        match statement {
            Parsed::Done { value, next } => Parsed::Done { value: Some(value), next },
            Parsed::Failed { error, at } => Parsed::Failed { error, at },
        }
    }
}

/// for := "for" "(" ( ";" | declaration | expression-statement ) expression? ";" expression?
///        ")" block
#[verifier::opaque]
pub open spec fn for_at(tokens: Seq<TokenView>, pos: int) -> Parsed<StatementView>
    decreases tokens.len() - pos, 27int,
{
    match expect(tokens, pos, TokenKind::For) {
        Parsed::Done { value: keyword, next: at_paren } => match expect(
            tokens,
            at_paren,
            TokenKind::LeftParen,
        ) {
            Parsed::Done { value: _, next: at_initializer } => match initializer_at(
                tokens,
                at_initializer,
            ) {
                Parsed::Done { value: initializer, next: at_condition } => match optional_expression_at(
                    tokens,
                    at_condition,
                    TokenKind::Semicolon,
                ) {
                    Parsed::Done { value: condition, next: at_semicolon } => match expect(
                        tokens,
                        at_semicolon,
                        TokenKind::Semicolon,
                    ) {
                        Parsed::Done { value: _, next: at_increment } => match optional_expression_at(
                            tokens,
                            at_increment,
                            TokenKind::RightParen,
                        ) {
                            Parsed::Done { value: increment, next: at_close } => match expect(
                                tokens,
                                at_close,
                                TokenKind::RightParen,
                            ) {
                                Parsed::Done { value: _, next: at_body } => if !moved(
                                    tokens,
                                    pos,
                                    at_body,
                                ) {
                                    stalled(tokens, pos)
                                } else {
                                    match block_at(tokens, at_body) {
                                        Parsed::Done { value: body, next } => Parsed::Done {
                                            value: StatementView::For {
                                                span: span_over(token_span(keyword), body.span()),
                                                initializer: match initializer {
                                                    Some(i) => Some(Box::new(i)),
                                                    None => None,
                                                },
                                                condition,
                                                increment,
                                                body: Box::new(body),
                                            },
                                            next,
                                        },
                                        Parsed::Failed { error, at } => Parsed::Failed {
                                            error,
                                            at,
                                        },
                                    }
                                },
                                Parsed::Failed { error, at } => Parsed::Failed { error, at },
                            },
                            Parsed::Failed { error, at } => Parsed::Failed { error, at },
                        },
                        Parsed::Failed { error, at } => Parsed::Failed { error, at },
                    },
                    Parsed::Failed { error, at } => Parsed::Failed { error, at },
                },
                Parsed::Failed { error, at } => Parsed::Failed { error, at },
            },
            Parsed::Failed { error, at } => Parsed::Failed { error, at },
        },
        Parsed::Failed { error, at } => Parsed::Failed { error, at },
    }
}

/// block := "{" statement* "}"
#[verifier::opaque]
pub open spec fn block_at(tokens: Seq<TokenView>, pos: int) -> Parsed<StatementView>
    decreases tokens.len() - pos, 25int,
{
    match expect(tokens, pos, TokenKind::LeftBrace) {
        Parsed::Done { value: open, next } => block_rest(tokens, next, Seq::empty(), open),
        Parsed::Failed { error, at } => Parsed::Failed { error, at },
    }
}

/// The statements of a block from `pos` on, behind the statements `before`, up to and with
/// the closing brace.
#[verifier::opaque]
pub open spec fn block_rest(
    tokens: Seq<TokenView>,
    pos: int,
    before: Seq<StatementView>,
    open: TokenView,
) -> Parsed<StatementView>
    decreases tokens.len() - pos, 35int,
{
    if kind_at(tokens, pos) == TokenKind::RightBrace {
        Parsed::Done {
            value: StatementView::Block {
                span: span_over(token_span(open), token_span(tokens[pos])),
                body: before,
            },
            next: pos + 1,
        }
    } else {
        match statement_at(tokens, pos) {
            Parsed::Done { value, next } => if !moved(tokens, pos, next) {
                stalled(tokens, pos)
            } else {
                block_rest(tokens, next, before.push(value), open)
            },
            Parsed::Failed { error, at } => Parsed::Failed { error, at },
        }
    }
}

/// expression-statement := expression ";"
#[verifier::opaque]
pub open spec fn expression_statement_at(tokens: Seq<TokenView>, pos: int) -> Parsed<StatementView> {
    match expression_at(tokens, pos) {
        Parsed::Done { value: expression, next: at_end } => match expect(
            tokens,
            at_end,
            TokenKind::Semicolon,
        ) {
            Parsed::Done { value: semicolon, next } => Parsed::Done {
                value: StatementView::Expression {
                    span: span_over(expression.span(), token_span(semicolon)),
                    expression,
                },
                next,
            },
            Parsed::Failed { error, at } => Parsed::Failed { error, at },
        },
        Parsed::Failed { error, at } => Parsed::Failed { error, at },
    }
}

/// if := "if" "(" expression ")" block ( "else" ( if | block ) )?
#[verifier::opaque]
pub open spec fn if_at(tokens: Seq<TokenView>, pos: int) -> Parsed<StatementView>
    decreases tokens.len() - pos, 25int,
{
    match expect(tokens, pos, TokenKind::If) {
        Parsed::Done { value: keyword, next: at_paren } => match condition_and_body_at(
            tokens,
            at_paren,
        ) {
            Parsed::Done { value: (condition, body), next: at_else } => if !moved(
                tokens,
                pos,
                at_else,
            ) {
                stalled(tokens, pos)
            } else if kind_at(tokens, at_else) == TokenKind::Else {
                let branch = if kind_at(tokens, at_else + 1) == TokenKind::If {
                    if_at(tokens, at_else + 1)
                } else {
                    block_at(tokens, at_else + 1)
                };
                match branch {
                    Parsed::Done { value: else_branch, next } => Parsed::Done {
                        value: StatementView::If {
                            span: span_over(token_span(keyword), else_branch.span()),
                            condition,
                            body: Box::new(body),
                            else_branch: Some(Box::new(else_branch)),
                        },
                        next,
                    },
                    Parsed::Failed { error, at } => Parsed::Failed { error, at },
                }
            } else {
                Parsed::Done {
                    value: StatementView::If {
                        span: span_over(token_span(keyword), body.span()),
                        condition,
                        body: Box::new(body),
                        else_branch: None,
                    },
                    next: at_else,
                }
            },
            Parsed::Failed { error, at } => Parsed::Failed { error, at },
        },
        Parsed::Failed { error, at } => Parsed::Failed { error, at },
    }
}

/// A keyword, an expression and a semicolon, as `print` and `return` are written.
#[verifier::opaque]
pub open spec fn keyword_statement_at(tokens: Seq<TokenView>, pos: int, keyword: TokenKind) -> Parsed<
    (Span, ExpressionView),
> {
    match expect(tokens, pos, keyword) {
        Parsed::Done { value: first, next: at_value } => match expression_at(tokens, at_value) {
            Parsed::Done { value, next: at_end } => match expect(
                tokens,
                at_end,
                TokenKind::Semicolon,
            ) {
                Parsed::Done { value: semicolon, next } => Parsed::Done {
                    value: (span_over(token_span(first), token_span(semicolon)), value),
                    next,
                },
                Parsed::Failed { error, at } => Parsed::Failed { error, at },
            },
            Parsed::Failed { error, at } => Parsed::Failed { error, at },
        },
        Parsed::Failed { error, at } => Parsed::Failed { error, at },
    }
}

/// print := "print" expression ";"
#[verifier::opaque]
pub open spec fn print_at(tokens: Seq<TokenView>, pos: int) -> Parsed<StatementView> {
    match keyword_statement_at(tokens, pos, TokenKind::Print) {
        Parsed::Done { value: (span, value), next } => Parsed::Done {
            value: StatementView::Print { span, value },
            next,
        },
        Parsed::Failed { error, at } => Parsed::Failed { error, at },
    }
}

/// return := "return" expression ";"
#[verifier::opaque]
pub open spec fn return_at(tokens: Seq<TokenView>, pos: int) -> Parsed<StatementView> {
    match keyword_statement_at(tokens, pos, TokenKind::Return) {
        Parsed::Done { value: (span, value), next } => Parsed::Done {
            value: StatementView::Return { span, value },
            next,
        },
        Parsed::Failed { error, at } => Parsed::Failed { error, at },
    }
}

/// Where parsing resumes after an error at `pos`: behind the next semicolon, or in front of
/// the next token that begins a statement, or at the end of input, whichever comes first.
#[verifier::opaque]
pub open spec fn synchronize_from(tokens: Seq<TokenView>, pos: int) -> int
    decreases tokens.len() - pos,
{
    if !(0 <= pos < tokens.len()) || tokens[pos].kind == TokenKind::Eof {
        pos
    } else if tokens[pos].kind == TokenKind::Semicolon {
        pos + 1
    } else if tokens[pos].kind.starts_statement() {
        pos
    } else {
        synchronize_from(tokens, pos + 1)
    }
}

/// The statements and the errors that a run over the tokens has gathered.
pub struct Gathered {
    pub body: Seq<StatementView>,
    pub errors: Seq<LoxErrorView>,
}

/// Where the next statement is tried after the one at `pos` failed at `at`: where recovery
/// from `at` leads, but in any case behind the token at `pos`.
pub open spec fn resume_after(tokens: Seq<TokenView>, pos: int, at: int) -> int {
    let target = synchronize_from(tokens, at);
    if pos < target <= tokens.len() {
        target
    } else {
        pos + 1
    }
}

/// The statements and errors of the tokens from `pos` on, behind those in `before`:
/// statement after statement up to the end of input, with recovery after each error.
#[verifier::opaque]
pub open spec fn program_from(tokens: Seq<TokenView>, pos: int, before: Gathered) -> Gathered
    decreases tokens.len() - pos,
{
    if kind_at(tokens, pos) == TokenKind::Eof {
        before
    } else {
        match statement_at(tokens, pos) {
            Parsed::Done { value, next } => if !moved(tokens, pos, next) {
                before
            } else {
                program_from(
                    tokens,
                    next,
                    Gathered { body: before.body.push(value), errors: before.errors },
                )
            },
            Parsed::Failed { error, at } => program_from(
                tokens,
                resume_after(tokens, pos, at),
                Gathered { body: before.body, errors: before.errors.push(error) },
            ),
        }
    }
}

/// What parsing a text gives, from the length of the text in bytes, its tokens and its
/// lexical errors: the lexical errors where there are any; else the syntax errors where there
/// are any; else the tree.
pub open spec fn parse_outcome(
    length: usize,
    tokens: Seq<TokenView>,
    lexical_errors: Seq<LoxErrorView>,
) -> Result<AstView, Seq<LoxErrorView>> {
    let gathered = program_from(
        tokens,
        0,
        Gathered { body: Seq::empty(), errors: Seq::empty() },
    );
    if lexical_errors.len() > 0 {
        Err(lexical_errors)
    } else if gathered.errors.len() > 0 {
        Err(gathered.errors)
    } else {
        Ok(AstView { span: Span { from: 0, to: length }, body: gathered.body })
    }
}

/// What parsing the text `src` gives, with the language's own keywords.
pub open spec fn parse_text(src: Seq<char>) -> Result<AstView, Seq<LoxErrorView>> {
    parse_outcome(
        byte_len(src) as usize,
        lex(src, default_table()).tokens,
        lex(src, default_table()).errors,
    )
}

} // verus!
