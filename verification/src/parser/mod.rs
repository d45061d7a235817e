pub mod expression_rules;
pub mod progress;
pub mod statement_rules;

use vstd::prelude::*;
use vstd::string::StringExecFns;
use bumpalo::Bump;
use crate::ast::expression::{
    expression_views,
    Assignment,
    Binary,
    BooleanLiteral,
    Call,
    Expression,
    ExpressionView,
    Grouping,
    Literal,
    LiteralValue,
    Logical,
    NilLiteral,
    NumberLiteral,
    StringLiteral,
    Ternary,
    Unary,
    Variable,
};
use crate::ast::operator::Operator;
use crate::ast::span::Span;
use crate::lexer::rules::{in_order, lemma_in_order, lemma_inside};
use crate::lexer::token::{token_views, Token, TokenLiteral, TokenView};
use crate::lexer::token_kind::TokenKind;
use crate::lox_error::{copy_errors, error_views, LoxError, LoxErrorView};
use crate::ast::statement::{
    list_view,
    Block,
    Declaration,
    Expression as ExpressionStatement,
    For,
    Function,
    If,
    Print,
    Return,
    Statement,
    StatementList,
    StatementView,
    While,
};
use crate::ast::{Ast, AstView};
use crate::lexer::keyword::default_table;
use crate::lexer::rules::{lemma_lex_from_in_order, lex};
use crate::lexer::Lexer;
use crate::text::{byte_len, byte_length};
use statement_rules::{
    block_at,
    block_rest,
    condition_and_body_at,
    declaration_at,
    expression_statement_at,
    for_at,
    function_at,
    if_at,
    initializer_at,
    keyword_statement_at,
    optional_expression_at,
    parameters_at,
    parse_text,
    print_at,
    program_from,
    return_at,
    statement_at,
    synchronize_from,
    while_at,
    Gathered,
};
use expression_rules::{
    and_at,
    arguments_at,
    assignment_at,
    binary_at,
    binary_rest,
    call_at,
    call_rest,
    expect,
    expected_message,
    expression_at,
    failure,
    kind_at,
    level_operator,
    level_rank,
    literal_of,
    operand_at,
    operator_of,
    or_at,
    primary_at,
    ternary_at,
    token_span,
    unary_at,
    Parsed,
};

verus! {

/// Turns the tokens of a source text into a tree, or into the list of its errors.
pub struct Parser<'alloc> {
    allocator: &'alloc Bump,
    source: &'alloc str,
    tokens: Vec<Token<'alloc>>,
    lexical_errors: Vec<LoxError>,
    cursor: usize,
    errors: Vec<LoxError>,
}

/// What a parsing function's result and the cursor it left say together.
pub open spec fn outcome<T: View>(result: Result<T, LoxError>, cursor: usize) -> Parsed<T::V> {
    match result {
        Ok(value) => Parsed::Done { value: value@, next: cursor as int },
        Err(error) => Parsed::Failed { error: error@, at: cursor as int },
    }
}

/// `span` covers the tokens `pos..next`, of which there is at least one.
pub open spec fn covers(tokens: Seq<TokenView>, span: Span, pos: int, next: int) -> bool {
    &&& 0 <= pos < next < tokens.len()
    &&& span.from == tokens[pos].from
    &&& span.to == tokens[next - 1].to
}

pub open spec fn expected_literal_message(found: TokenKind) -> Seq<char> {
    "Expected literal but got "@ + found.spec_name()
}

pub open spec fn expected_operator_message(found: TokenKind) -> Seq<char> {
    "Expected operator but got "@ + found.spec_name()
}

fn expected_text(wanted: TokenKind, found: TokenKind) -> (message: String)
    ensures
        message@ == expected_message(wanted, found),
{
    let mut out = String::from_str("Syntax Error: Expected ");
    out.append(wanted.name());
    out.append(" but got ");
    out.append(found.name());
    out
}

fn prefixed_text(prefix: &str, rest: &str) -> (message: String)
    ensures
        message@ == prefix@ + rest@,
{
    let mut out = String::from_str(prefix);
    out.append(rest);
    out
}

impl<'alloc> Parser<'alloc> {
    /// The tokens being parsed.
    pub closed spec fn tokens_view(&self) -> Seq<TokenView> {
        token_views(self.tokens@)
    }

    /// The index of the token that is read next.
    pub closed spec fn position(&self) -> int {
        self.cursor as int
    }

    /// The text being parsed.
    pub closed spec fn text(&self) -> Seq<char> {
        self.source@
    }

    /// The errors that lexing the text gave.
    pub closed spec fn lexical_errors_view(&self) -> Seq<LoxErrorView> {
        error_views(self.lexical_errors@)
    }

    /// The tokens and lexical errors are those of the text, and the cursor stands on a token.
    pub closed spec fn wf(&self) -> bool {
        &&& self.tokens_view() == lex(self.text(), default_table()).tokens
        &&& self.lexical_errors_view() == lex(self.text(), default_table()).errors
        &&& in_order(self.tokens_view())
        &&& self.tokens_view().last().to <= byte_len(self.text()) <= usize::MAX
        &&& self.cursor < self.tokens.len()
    }

    /// `self` differs from `before` in nothing but the cursor.
    pub closed spec fn moved_from(&self, before: &Parser) -> bool {
        &&& self.wf()
        &&& self.allocator == before.allocator
        &&& self.source == before.source
        &&& self.tokens == before.tokens
        &&& self.lexical_errors == before.lexical_errors
        &&& self.errors == before.errors
        &&& before.cursor <= self.cursor
    }

    fn allocate<T>(&self, x: T) -> (boxed: Box<T>)
        ensures
            *boxed == x,
    {
        Box::new(x)
    }

    fn curr_token(&self) -> (token: Token<'alloc>)
        requires
            self.wf(),
        ensures
            token@ == self.tokens_view()[self.position()],
            token == self.tokens@[self.position()],
    {
        self.tokens[self.cursor]
    }

    fn curr_token_kind(&self) -> (kind: TokenKind)
        requires
            self.wf(),
        ensures
            kind == kind_at(self.tokens_view(), self.position()),
    {
        self.curr_token().kind
    }

    fn curr_token_lexeme(&self) -> (lexeme: &'alloc str)
        requires
            self.wf(),
        ensures
            lexeme@ == self.tokens_view()[self.position()].lexeme,
    {
        self.curr_token().lexeme
    }

    /// An error on the line of the current token.
    fn error_here(&self, message: String) -> (error: LoxError)
        requires
            self.wf(),
        ensures
            error@ == failure(self.tokens_view(), self.position(), message@),
    {
        LoxError::new(self.curr_token().line, message)
    }

    fn bump_any(&mut self)
        requires
            old(self).wf(),
            kind_at(old(self).tokens_view(), old(self).position()) != TokenKind::Eof,
        ensures
            final(self).moved_from(old(self)),
            final(self).position() == old(self).position() + 1,
    {
        proof {
            lemma_in_order(self.tokens_view(), self.position(), self.position());
        }
        self.cursor = self.cursor + 1;
    }

    fn eat(&mut self, kind: TokenKind) -> (eaten: Result<Token<'alloc>, LoxError>)
        requires
            old(self).wf(),
            kind != TokenKind::Eof,
        ensures
            final(self).moved_from(old(self)),
            outcome(eaten, final(self).cursor) == expect(
                old(self).tokens_view(),
                old(self).position(),
                kind,
            ),
            eaten matches Ok(token) ==> token == old(self).tokens@[old(self).position()],
    {
        let curr_token = self.curr_token();
        if curr_token.kind == kind {
            self.bump_any();
            Ok(curr_token)
        } else {
            Err(self.error_here(expected_text(kind, curr_token.kind)))
        }
    }

    fn get_literal(&self, token: Token<'alloc>) -> (literal: Result<LiteralValue<'alloc>, LoxError>)
        ensures
            match literal {
                Ok(value) => literal_of(token@) == Some(value@),
                Err(error) => literal_of(token@) is None && error@ == (LoxErrorView {
                    message: expected_literal_message(token.kind),
                    line: token.line,
                }),
            },
    {
        let span = Span::new(token.from, token.to);
        match token.kind {
            TokenKind::True => Ok(LiteralValue::Boolean(BooleanLiteral { span, value: true })),
            TokenKind::False => Ok(LiteralValue::Boolean(BooleanLiteral { span, value: false })),
            TokenKind::Nil => Ok(LiteralValue::Nil(NilLiteral { span })),
            TokenKind::String => {
                let value = match token.literal {
                    Some(TokenLiteral::String(text)) => text,
                    _ => token.lexeme,
                };
                Ok(LiteralValue::String(StringLiteral { span, value }))
            },
            TokenKind::Number => Ok(LiteralValue::Number(NumberLiteral { span, raw: token.lexeme })),
            _ => Err(
                LoxError::new(
                    token.line,
                    prefixed_text("Expected literal but got ", token.kind.name()),
                ),
            ),
        }
    }

    fn operator(&self) -> (operator: Result<Operator, LoxError>)
        requires
            self.wf(),
        ensures
            match operator {
                Ok(op) => operator_of(
                    kind_at(self.tokens_view(), self.position()),
                    token_span(self.tokens_view()[self.position()]),
                ) == Some(op),
                Err(error) => operator_of(
                    kind_at(self.tokens_view(), self.position()),
                    token_span(self.tokens_view()[self.position()]),
                ) is None && error@ == failure(
                    self.tokens_view(),
                    self.position(),
                    expected_operator_message(kind_at(self.tokens_view(), self.position())),
                ),
            },
    {
        let span = Span::new(self.curr_token().from, self.curr_token().to);
        match self.curr_token_kind() {
            TokenKind::And => Ok(Operator::And(span)),
            TokenKind::Bang => Ok(Operator::Bang(span)),
            TokenKind::BangEqual => Ok(Operator::BangEqual(span)),
            TokenKind::EqualEqual => Ok(Operator::EqualEqual(span)),
            TokenKind::Greater => Ok(Operator::Greater(span)),
            TokenKind::GreaterEqual => Ok(Operator::GreaterEqual(span)),
            TokenKind::Less => Ok(Operator::Less(span)),
            TokenKind::LessEqual => Ok(Operator::LessEqual(span)),
            TokenKind::Minus => Ok(Operator::Minus(span)),
            TokenKind::Or => Ok(Operator::Or(span)),
            TokenKind::Plus => Ok(Operator::Plus(span)),
            TokenKind::Slash => Ok(Operator::Slash(span)),
            TokenKind::Star => Ok(Operator::Star(span)),
            _ => Err(
                self.error_here(
                    prefixed_text("Expected operator but got ", self.curr_token_kind().name()),
                ),
            ),
        }
    }
    /// `self` is what `before` becomes by the parse that `expected` describes, and `parsed` is
    /// what that parse gives: a tree, nested in itself, that covers the tokens consumed.
    spec fn yields(
        &self,
        before: &Parser,
        parsed: Result<Expression, LoxError>,
        expected: Parsed<ExpressionView>,
    ) -> bool {
        &&& self.moved_from(before)
        &&& outcome(parsed, self.cursor) == expected
        &&& parsed matches Ok(e) ==> e@.nested() && covers(
            before.tokens_view(),
            e@.span(),
            before.position(),
            self.position(),
        )
    }

    #[verifier::spinoff_prover]
    fn parse_expression(&mut self) -> (parsed: Result<Expression<'alloc>, LoxError>)
        requires
            old(self).wf(),
        ensures
            final(self).yields(
                old(self),
                parsed,
                expression_at(old(self).tokens_view(), old(self).position()),
            ),
        decreases old(self).tokens@.len() - old(self).cursor, 40int,
    {
        proof {
            reveal(expression_at);
            reveal(assignment_at);
        }
        self.parse_assignment_expression()
    }

    #[verifier::spinoff_prover]
    fn parse_assignment_expression(&mut self) -> (parsed: Result<Expression<'alloc>, LoxError>)
        requires
            old(self).wf(),
        ensures
            final(self).yields(
                old(self),
                parsed,
                assignment_at(old(self).tokens_view(), old(self).position()),
            ),
        decreases old(self).tokens@.len() - old(self).cursor, 39int,
    {
        let ghost tokens = self.tokens_view();
        let ghost pos = self.position();
        proof {
            reveal(assignment_at);
            reveal(ternary_at);
        }
        let expr = match self.parse_ternary_expression() {
            Ok(expr) => expr,
            Err(error) => return Err(error),
        };
        if self.curr_token_kind() == TokenKind::Equal {
            let equal = self.curr_token();
            let ghost at_equal = self.position();
            self.bump_any();
            let right = match self.parse_assignment_expression() {
                Ok(right) => right,
                Err(error) => return Err(error),
            };
            match expr {
                Expression::Variable(_) => {
                    proof {
                        lemma_inside(tokens, pos, self.position(), pos, at_equal - 1);
                        lemma_inside(tokens, pos, self.position(), at_equal + 1, self.position() - 1);
                    }
                    let span = Span::new(expr.span().from, right.span().to);
                    Ok(
                        Expression::Assignment(
                            self.allocate(Assignment { span, target: expr, value: right }),
                        ),
                    )
                },
                _ => Err(
                    LoxError::new(
                        equal.line,
                        String::from_str("Syntax Error: Invalid assignment target"),
                    ),
                ),
            }
        } else {
            Ok(expr)
        }
    }

    #[verifier::spinoff_prover]
    fn parse_ternary_expression(&mut self) -> (parsed: Result<Expression<'alloc>, LoxError>)
        requires
            old(self).wf(),
        ensures
            final(self).yields(
                old(self),
                parsed,
                ternary_at(old(self).tokens_view(), old(self).position()),
            ),
        decreases old(self).tokens@.len() - old(self).cursor, 38int,
    {
        let ghost tokens = self.tokens_view();
        let ghost pos = self.position();
        proof {
            reveal(ternary_at);
            reveal(or_at);
            reveal(expression_at);
        }
        let condition = match self.parse_or_expression() {
            Ok(condition) => condition,
            Err(error) => return Err(error),
        };
        if self.curr_token_kind() == TokenKind::Question {
            let ghost at_question = self.position();
            self.bump_any();
            let true_branch = match self.parse_expression() {
                Ok(branch) => branch,
                Err(error) => return Err(error),
            };
            let ghost at_colon = self.position();
            match self.eat(TokenKind::Colon) {
                Ok(_) => {},
                Err(error) => return Err(error),
            }
            let false_branch = match self.parse_ternary_expression() {
                Ok(branch) => branch,
                Err(error) => return Err(error),
            };
            proof {
                let next = self.position();
                lemma_inside(tokens, pos, next, pos, at_question - 1);
                lemma_inside(tokens, pos, next, at_question + 1, at_colon - 1);
                lemma_inside(tokens, pos, next, at_colon + 1, next - 1);
            }
            let span = Span::new(condition.span().from, false_branch.span().to);
            Ok(
                Expression::Ternary(
                    self.allocate(Ternary { span, condition, true_branch, false_branch }),
                ),
            )
        } else {
            Ok(condition)
        }
    }

    #[verifier::spinoff_prover]
    fn parse_or_expression(&mut self) -> (parsed: Result<Expression<'alloc>, LoxError>)
        requires
            old(self).wf(),
        ensures
            final(self).yields(
                old(self),
                parsed,
                or_at(old(self).tokens_view(), old(self).position()),
            ),
        decreases old(self).tokens@.len() - old(self).cursor, 37int,
    {
        let ghost tokens = self.tokens_view();
        let ghost pos = self.position();
        proof {
            reveal(or_at);
            reveal(and_at);
        }
        let expr = match self.parse_and_expression() {
            Ok(expr) => expr,
            Err(error) => return Err(error),
        };
        if self.curr_token_kind() == TokenKind::Or {
            let ghost at_operator = self.position();
            let operator = match self.operator() {
                Ok(operator) => operator,
                Err(error) => return Err(error),
            };
            self.bump_any();
            let right = match self.parse_or_expression() {
                Ok(right) => right,
                Err(error) => return Err(error),
            };
            proof {
                let next = self.position();
                lemma_inside(tokens, pos, next, pos, at_operator - 1);
                lemma_inside(tokens, pos, next, at_operator, at_operator);
                lemma_inside(tokens, pos, next, at_operator + 1, next - 1);
            }
            let span = Span::new(expr.span().from, right.span().to);
            Ok(Expression::Logical(self.allocate(Logical { span, left: expr, right, operator })))
        } else {
            Ok(expr)
        }
    }

    #[verifier::spinoff_prover]
    fn parse_and_expression(&mut self) -> (parsed: Result<Expression<'alloc>, LoxError>)
        requires
            old(self).wf(),
        ensures
            final(self).yields(
                old(self),
                parsed,
                and_at(old(self).tokens_view(), old(self).position()),
            ),
        decreases old(self).tokens@.len() - old(self).cursor, 36int,
    {
        let ghost tokens = self.tokens_view();
        let ghost pos = self.position();
        proof {
            reveal(and_at);
            reveal(binary_at);
        }
        let expr = match self.parse_equality_expression() {
            Ok(expr) => expr,
            Err(error) => return Err(error),
        };
        if self.curr_token_kind() == TokenKind::And {
            let ghost at_operator = self.position();
            let operator = match self.operator() {
                Ok(operator) => operator,
                Err(error) => return Err(error),
            };
            self.bump_any();
            let right = match self.parse_and_expression() {
                Ok(right) => right,
                Err(error) => return Err(error),
            };
            proof {
                let next = self.position();
                lemma_inside(tokens, pos, next, pos, at_operator - 1);
                lemma_inside(tokens, pos, next, at_operator, at_operator);
                lemma_inside(tokens, pos, next, at_operator + 1, next - 1);
            }
            let span = Span::new(expr.span().from, right.span().to);
            Ok(Expression::Logical(self.allocate(Logical { span, left: expr, right, operator })))
        } else {
            Ok(expr)
        }
    }

    #[verifier::spinoff_prover]
    fn parse_equality_expression(&mut self) -> (parsed: Result<Expression<'alloc>, LoxError>)
        requires
            old(self).wf(),
        ensures
            final(self).yields(
                old(self),
                parsed,
                binary_at(old(self).tokens_view(), old(self).position(), 0),
            ),
        decreases old(self).tokens@.len() - old(self).cursor, level_rank(0) + 1,
    {
        self.parse_binary_level(0)
    }

    #[verifier::spinoff_prover]
    fn parse_comparison_expression(&mut self) -> (parsed: Result<Expression<'alloc>, LoxError>)
        requires
            old(self).wf(),
        ensures
            final(self).yields(
                old(self),
                parsed,
                binary_at(old(self).tokens_view(), old(self).position(), 1),
            ),
        decreases old(self).tokens@.len() - old(self).cursor, level_rank(1) + 1,
    {
        self.parse_binary_level(1)
    }

    #[verifier::spinoff_prover]
    fn parse_term_expression(&mut self) -> (parsed: Result<Expression<'alloc>, LoxError>)
        requires
            old(self).wf(),
        ensures
            final(self).yields(
                old(self),
                parsed,
                binary_at(old(self).tokens_view(), old(self).position(), 2),
            ),
        decreases old(self).tokens@.len() - old(self).cursor, level_rank(2) + 1,
    {
        self.parse_binary_level(2)
    }

    #[verifier::spinoff_prover]
    fn parse_factor_expression(&mut self) -> (parsed: Result<Expression<'alloc>, LoxError>)
        requires
            old(self).wf(),
        ensures
            final(self).yields(
                old(self),
                parsed,
                binary_at(old(self).tokens_view(), old(self).position(), 3),
            ),
        decreases old(self).tokens@.len() - old(self).cursor, level_rank(3) + 1,
    {
        self.parse_binary_level(3)
    }

    /// The operand of the binary level `level`: an expression of the next tighter level.
    #[verifier::spinoff_prover]
    fn parse_operand(&mut self, level: u8) -> (parsed: Result<Expression<'alloc>, LoxError>)
        requires
            old(self).wf(),
            level <= 3,
        ensures
            final(self).yields(
                old(self),
                parsed,
                operand_at(old(self).tokens_view(), old(self).position(), level as nat),
            ),
        decreases old(self).tokens@.len() - old(self).cursor, level_rank(level as nat) - 1,
    {
        proof {
            reveal(operand_at);
            reveal(binary_at);
            reveal(unary_at);
        }
        if level == 0 {
            self.parse_comparison_expression()
        } else if level == 1 {
            self.parse_term_expression()
        } else if level == 2 {
            self.parse_factor_expression()
        } else {
            self.parse_unary_expression()
        }
    }

    /// Whether a token of kind `kind` is an operator of the binary level `level`.
    fn is_level_operator(level: u8, kind: TokenKind) -> (is: bool)
        ensures
            is == level_operator(level as nat, kind),
    {
        if level == 0 {
            matches!(kind, TokenKind::EqualEqual | TokenKind::BangEqual)
        } else if level == 1 {
            matches!(
                kind,
                TokenKind::Greater | TokenKind::GreaterEqual | TokenKind::Less
                    | TokenKind::LessEqual
            )
        } else if level == 2 {
            matches!(kind, TokenKind::Plus | TokenKind::Minus)
        } else {
            matches!(kind, TokenKind::Star | TokenKind::Slash)
        }
    }

    /// One level of binary operators: operands of the next tighter level, joined from left
    /// to right by the operators of this level.
    #[verifier::spinoff_prover]
    fn parse_binary_level(&mut self, level: u8) -> (parsed: Result<Expression<'alloc>, LoxError>)
        requires
            old(self).wf(),
            level <= 3,
        ensures
            final(self).yields(
                old(self),
                parsed,
                binary_at(old(self).tokens_view(), old(self).position(), level as nat),
            ),
        decreases old(self).tokens@.len() - old(self).cursor, level_rank(level as nat),
    {
        let ghost tokens = self.tokens_view();
        let ghost pos = self.position();
        proof {
            reveal(binary_at);
            reveal(operand_at);
            reveal(binary_rest);
        }
        let mut expr = match self.parse_operand(level) {
            Ok(expr) => expr,
            Err(error) => return Err(error),
        };
        loop
            invariant
                level <= 3,
                self.moved_from(old(self)),
                tokens == old(self).tokens_view(),
                pos == old(self).position(),
                binary_at(tokens, pos, level as nat) == binary_rest(
                    tokens,
                    expr@,
                    self.position(),
                    level as nat,
                ),
                expr@.nested(),
                covers(tokens, expr@.span(), pos, self.position()),
            decreases self.tokens@.len() - self.cursor,
        {
            proof {
                reveal(binary_rest);
                reveal(operand_at);
            }
            if !Self::is_level_operator(level, self.curr_token_kind()) {
                return Ok(expr);
            }
            let ghost at_operator = self.position();
            let operator = match self.operator() {
                Ok(operator) => operator,
                Err(error) => return Err(error),
            };
            self.bump_any();
            let right = match self.parse_operand(level) {
                Ok(right) => right,
                Err(error) => return Err(error),
            };
            proof {
                let next = self.position();
                lemma_inside(tokens, pos, next, pos, at_operator - 1);
                lemma_inside(tokens, pos, next, at_operator, at_operator);
                lemma_inside(tokens, pos, next, at_operator + 1, next - 1);
            }
            let span = Span::new(expr.span().from, right.span().to);
            expr = Expression::Binary(self.allocate(Binary { span, left: expr, right, operator }));
        }
    }

    #[verifier::spinoff_prover]
    fn parse_unary_expression(&mut self) -> (parsed: Result<Expression<'alloc>, LoxError>)
        requires
            old(self).wf(),
        ensures
            final(self).yields(
                old(self),
                parsed,
                unary_at(old(self).tokens_view(), old(self).position()),
            ),
        decreases old(self).tokens@.len() - old(self).cursor, 10int,
    {
        let ghost tokens = self.tokens_view();
        let ghost pos = self.position();
        proof {
            reveal(unary_at);
            reveal(call_at);
        }
        let curr_token = self.curr_token();
        let span = Span::default().start(curr_token.from);

        if matches!(curr_token.kind, TokenKind::Bang | TokenKind::Minus) {
            let operator = match self.operator() {
                Ok(operator) => operator,
                Err(error) => return Err(error),
            };
            self.bump_any();
            let right = match self.parse_unary_expression() {
                Ok(right) => right,
                Err(error) => return Err(error),
            };
            proof {
                let next = self.position();
                lemma_inside(tokens, pos, next, pos, pos);
                lemma_inside(tokens, pos, next, pos + 1, next - 1);
            }
            return Ok(
                Expression::Unary(
                    self.allocate(Unary { span: span.end(right.span().to), operator, right }),
                ),
            );
        }
        self.parse_call_expression()
    }

    /// The arguments of a call, up to the closing parenthesis, which is left unread.
    #[verifier::spinoff_prover]
    fn parse_arguments(&mut self) -> (parsed: Result<Vec<Expression<'alloc>>, LoxError>)
        requires
            old(self).wf(),
        ensures
            final(self).moved_from(old(self)),
            arguments_at(old(self).tokens_view(), old(self).position(), Seq::empty()) == (match parsed {
                Ok(list) => Parsed::Done {
                    value: expression_views(list@),
                    next: final(self).position(),
                },
                Err(error) => Parsed::Failed { error: error@, at: final(self).position() },
            }),
            parsed matches Ok(list) ==> forall|i: int|
                0 <= i < list@.len() ==> (#[trigger] list@[i])@.nested() && old(self).tokens_view()[old(self).position()].from <= list@[i]@.span().from
                    && list@[i]@.span().to <= old(self).tokens_view()[final(self).position()
                    - 1].to,
        decreases old(self).tokens@.len() - old(self).cursor, 42int,
    {
        let ghost tokens = self.tokens_view();
        let ghost pos = self.position();
        let mut arguments: Vec<Expression<'alloc>> = Vec::new();
        assert(expression_views(arguments@) =~= Seq::<ExpressionView>::empty());
        loop
            invariant
                self.moved_from(old(self)),
                tokens == old(self).tokens_view(),
                pos == old(self).position(),
                arguments_at(tokens, pos, Seq::empty()) == arguments_at(
                    tokens,
                    self.position(),
                    expression_views(arguments@),
                ),
                arguments@.len() > 0 ==> pos < self.position(),
                forall|i: int|
                    0 <= i < arguments@.len() ==> (#[trigger] arguments@[i])@.nested()
                        && tokens[pos].from <= arguments@[i]@.span().from
                        && arguments@[i]@.span().to <= tokens[self.position() - 1].to,
            decreases self.tokens@.len() - self.cursor,
        {
            proof {
                reveal(arguments_at);
                reveal(expression_at);
            }
            if self.curr_token_kind() == TokenKind::RightParen {
                return Ok(arguments);
            }
            let ghost at_argument = self.position();
            let ghost before = arguments@;
            let argument = match self.parse_expression() {
                Ok(argument) => argument,
                Err(error) => return Err(error),
            };
            arguments.push(argument);
            proof {
                let next = self.position();
                assert(expression_views(arguments@) =~= expression_views(before).push(
                    argument@,
                ));
                lemma_inside(tokens, pos, next, at_argument, next - 1);
                assert forall|i: int| 0 <= i < arguments@.len() implies (
                #[trigger] arguments@[i])@.nested() && tokens[pos].from
                    <= arguments@[i]@.span().from && arguments@[i]@.span().to <= tokens[next
                    - 1].to by {
                    if i < before.len() {
                        assert(arguments@[i] == before[i]);
                        lemma_in_order(tokens, at_argument - 1, next - 1);
                    }
                }
            }
            if self.curr_token_kind() == TokenKind::Comma {
                proof {
                    lemma_in_order(tokens, self.position() - 1, self.position());
                }
                self.bump_any();
            } else {
                return Ok(arguments);
            }
        }
    }

    #[verifier::spinoff_prover]
    fn parse_call_expression(&mut self) -> (parsed: Result<Expression<'alloc>, LoxError>)
        requires
            old(self).wf(),
        ensures
            final(self).yields(
                old(self),
                parsed,
                call_at(old(self).tokens_view(), old(self).position()),
            ),
        decreases old(self).tokens@.len() - old(self).cursor, 9int,
    {
        let ghost tokens = self.tokens_view();
        let ghost pos = self.position();
        proof {
            reveal(call_at);
            reveal(primary_at);
            reveal(call_rest);
        }
        let mut expr = match self.parse_primary_expression() {
            Ok(expr) => expr,
            Err(error) => return Err(error),
        };
        loop
            invariant
                self.moved_from(old(self)),
                tokens == old(self).tokens_view(),
                pos == old(self).position(),
                call_at(tokens, pos) == call_rest(tokens, expr@, self.position()),
                expr@.nested(),
                covers(tokens, expr@.span(), pos, self.position()),
            decreases self.tokens@.len() - self.cursor,
        {
            proof {
                reveal(call_rest);
                reveal(arguments_at);
            }
            if self.curr_token_kind() != TokenKind::LeftParen {
                return Ok(expr);
            }
            let ghost at_open = self.position();
            self.bump_any();
            let arguments = match self.parse_arguments() {
                Ok(arguments) => arguments,
                Err(error) => return Err(error),
            };
            // if the current token is a closing parenthesis the call is complete
            if self.curr_token_kind() == TokenKind::RightParen {
                let end_paren = self.curr_token();
                self.bump_any();
                let span = Span::default().start(expr.span().from);
                proof {
                    let next = self.position();
                    lemma_inside(tokens, pos, next, pos, at_open - 1);
                    lemma_inside(tokens, pos, next, at_open + 1, next - 1);
                    lemma_in_order(tokens, next - 2, next - 1);
                }
                let ghost callee = expr@;
                let ghost list = arguments@;
                expr =
                Expression::Call(
                    self.allocate(
                        Call { span: span.end(end_paren.to), callee: expr, arguments, end_paren },
                    ),
                );
                proof {
                    assert(expr@->Call_arguments =~= expression_views(list));
                }
            } else {
                return Err(
                    self.error_here(String::from_str("Expected ')' after arguments")),
                );
            }
        }
    }

    #[verifier::spinoff_prover]
    fn parse_primary_expression(&mut self) -> (parsed: Result<Expression<'alloc>, LoxError>)
        requires
            old(self).wf(),
        ensures
            final(self).yields(
                old(self),
                parsed,
                primary_at(old(self).tokens_view(), old(self).position()),
            ),
        decreases old(self).tokens@.len() - old(self).cursor, 8int,
    {
        let curr_token = self.curr_token();
        match curr_token.kind {
            TokenKind::String
            | TokenKind::True
            | TokenKind::False
            | TokenKind::Nil
            | TokenKind::Number => self.parse_literal_expression(),
            TokenKind::Identifier => self.parse_variable_expression(),
            TokenKind::LeftParen => self.parse_grouping_expression(),
            _ => {
                proof {
                    reveal(primary_at);
                }
                Err(
                    self.error_here(
                        prefixed_text(
                            "Syntax Error: Expression Expected but got ",
                            self.curr_token_lexeme(),
                        ),
                    ),
                )
            },
        }
    }

    /// A literal, where the current token spells one.
    #[verifier::spinoff_prover]
    fn parse_literal_expression(&mut self) -> (parsed: Result<Expression<'alloc>, LoxError>)
        requires
            old(self).wf(),
            literal_of(old(self).tokens_view()[old(self).position()]) is Some,
        ensures
            final(self).yields(
                old(self),
                parsed,
                primary_at(old(self).tokens_view(), old(self).position()),
            ),
    {
        let ghost tokens = self.tokens_view();
        let ghost pos = self.position();
        let curr_token = self.curr_token();
        let span = Span::new(curr_token.from, curr_token.to);
        let value = match self.get_literal(curr_token) {
            Ok(value) => value,
            Err(error) => {
                return Err(error);
            },
        };
        self.bump_any();
        let node = Expression::Literal(self.allocate(Literal { span, value }));
        proof {
            lemma_in_order(tokens, pos, pos);
            assert(node@ == ExpressionView::Literal { span, value: value@ });
            assert(value@.span() == span);
            assert(node@.nested());
            assert(covers(tokens, node@.span(), pos, pos + 1));
            assert(self.moved_from(old(self)));
            reveal(primary_at);
            assert(primary_at(tokens, pos) == Parsed::Done { value: node@, next: pos + 1 });
        }
        Ok(node)
    }

    /// A variable, where the current token is an identifier.
    #[verifier::spinoff_prover]
    fn parse_variable_expression(&mut self) -> (parsed: Result<Expression<'alloc>, LoxError>)
        requires
            old(self).wf(),
            kind_at(old(self).tokens_view(), old(self).position()) == TokenKind::Identifier,
        ensures
            final(self).yields(
                old(self),
                parsed,
                primary_at(old(self).tokens_view(), old(self).position()),
            ),
    {
        let ghost tokens = self.tokens_view();
        let ghost pos = self.position();
        proof {
            reveal(primary_at);
            lemma_in_order(tokens, pos, pos);
        }
        let curr_token = self.curr_token();
        let span = Span::new(curr_token.from, curr_token.to);
        let name = self.curr_token_lexeme();
        self.bump_any();
        Ok(Expression::Variable(self.allocate(Variable { span, name })))
    }

    /// An expression in parentheses, where the current token opens them.
    #[verifier::spinoff_prover]
    fn parse_grouping_expression(&mut self) -> (parsed: Result<Expression<'alloc>, LoxError>)
        requires
            old(self).wf(),
            kind_at(old(self).tokens_view(), old(self).position()) == TokenKind::LeftParen,
        ensures
            final(self).yields(
                old(self),
                parsed,
                primary_at(old(self).tokens_view(), old(self).position()),
            ),
        decreases old(self).tokens@.len() - old(self).cursor, 7int,
    {
        let ghost tokens = self.tokens_view();
        let ghost pos = self.position();
        let open = self.curr_token();
        self.bump_any();
        let inner = match self.parse_expression() {
            Ok(inner) => inner,
            Err(error) => {
                assert(outcome::<Expression>(Err(error), self.cursor) == primary_at(tokens, pos)) by {
                    reveal(primary_at);
                    reveal(expression_at);
                }
                return Err(error);
            },
        };
        let ghost at_close = self.position();
        let close = match self.eat(TokenKind::RightParen) {
            Ok(close) => close,
            Err(error) => {
                assert(outcome::<Expression>(Err(error), self.cursor) == primary_at(tokens, pos)) by {
                    reveal(primary_at);
                    reveal(expression_at);
                }
                return Err(error);
            },
        };
        let node = Expression::Grouping(
            self.allocate(Grouping { span: Span::new(open.from, close.to), expression: inner }),
        );
        proof {
            let next = self.position();
            lemma_inside(tokens, pos, next, pos + 1, next - 2);
            lemma_inside(tokens, pos, next, next - 1, next - 1);
            assert(node@.nested());
            assert(outcome(Ok::<Expression, LoxError>(node), self.cursor) == primary_at(tokens, pos)) by {
                reveal(primary_at);
                reveal(expression_at);
            }
        }
        Ok(node)
    }

    /// As `yields`, for a statement.
    spec fn yields_statement(
        &self,
        before: &Parser,
        parsed: Result<Statement, LoxError>,
        expected: Parsed<StatementView>,
    ) -> bool {
        &&& self.moved_from(before)
        &&& outcome(parsed, self.cursor) == expected
        &&& parsed matches Ok(s) ==> s@.nested() && covers(
            before.tokens_view(),
            s@.span(),
            before.position(),
            self.position(),
        )
    }

    #[verifier::spinoff_prover]
    fn parse_statement(&mut self) -> (parsed: Result<Statement<'alloc>, LoxError>)
        requires
            old(self).wf(),
        ensures
            final(self).yields_statement(
                old(self),
                parsed,
                statement_at(old(self).tokens_view(), old(self).position()),
            ),
        decreases old(self).tokens@.len() - old(self).cursor, 30int,
    {
        proof {
            reveal(statement_at);
            reveal(function_at);
            reveal(declaration_at);
            reveal(while_at);
            reveal(for_at);
            reveal(if_at);
            reveal(print_at);
            reveal(return_at);
            reveal(block_at);
            reveal(expression_statement_at);
        }
        match self.curr_token_kind() {
            TokenKind::Fun => self.parse_function_declaration(),
            TokenKind::Var => self.parse_variable_declaration(),
            TokenKind::While => self.parse_while_statement(),
            TokenKind::For => self.parse_for_statement(),
            TokenKind::If => self.parse_if_statement(),
            TokenKind::Print => self.parse_print_statement(),
            TokenKind::Return => self.parse_return_statement(),
            TokenKind::LeftBrace => self.parse_block_statement(),
            _ => self.parse_expression_statement(),
        }
    }

    /// The parameters of a function, of which there is at least one.
    #[verifier::spinoff_prover]
    fn parse_parameters(&mut self) -> (parsed: Result<Vec<Token<'alloc>>, LoxError>)
        requires
            old(self).wf(),
        ensures
            final(self).moved_from(old(self)),
            parameters_at(old(self).tokens_view(), old(self).position(), Seq::empty()) == (match parsed {
                Ok(list) => Parsed::Done { value: token_views(list@), next: final(self).position() },
                Err(error) => Parsed::Failed { error: error@, at: final(self).position() },
            }),
            parsed matches Ok(list) ==> old(self).position() < final(self).position()
                && forall|i: int|
                0 <= i < list@.len() ==> old(self).tokens_view()[old(self).position()].from <= (
                #[trigger] list@[i]).from && list@[i].to <= old(self).tokens_view()[final(self).position() - 1].to,
    {
        let ghost tokens = self.tokens_view();
        let ghost pos = self.position();
        let mut params: Vec<Token<'alloc>> = Vec::new();
        assert(token_views(params@) =~= Seq::<TokenView>::empty());
        loop
            invariant
                self.moved_from(old(self)),
                tokens == old(self).tokens_view(),
                pos == old(self).position(),
                parameters_at(tokens, pos, Seq::empty()) == parameters_at(
                    tokens,
                    self.position(),
                    token_views(params@),
                ),
                params@.len() > 0 ==> pos < self.position(),
                forall|i: int|
                    0 <= i < params@.len() ==> tokens[pos].from <= (#[trigger] params@[i]).from
                        && params@[i].to <= tokens[self.position() - 1].to,
            decreases self.tokens@.len() - self.cursor,
        {
            proof {
                reveal(parameters_at);
            }
            let ghost at_parameter = self.position();
            let ghost before = params@;
            let param = match self.eat(TokenKind::Identifier) {
                Ok(param) => param,
                Err(error) => return Err(error),
            };
            params.push(param);
            proof {
                assert(token_views(params@) =~= token_views(before).push(param@));
                lemma_inside(tokens, pos, at_parameter + 1, at_parameter, at_parameter);
                assert forall|i: int| 0 <= i < params@.len() implies tokens[pos].from <= (
                #[trigger] params@[i]).from && params@[i].to <= tokens[at_parameter].to by {
                    if i < before.len() {
                        assert(params@[i] == before[i]);
                        lemma_in_order(tokens, at_parameter - 1, at_parameter);
                    }
                }
            }
            if self.curr_token_kind() == TokenKind::Comma {
                proof {
                    lemma_in_order(tokens, self.position() - 1, self.position());
                }
                self.bump_any();
            } else {
                return Ok(params);
            }
        }
    }

    #[verifier::spinoff_prover]
    fn parse_function_declaration(&mut self) -> (parsed: Result<Statement<'alloc>, LoxError>)
        requires
            old(self).wf(),
        ensures
            final(self).yields_statement(
                old(self),
                parsed,
                function_at(old(self).tokens_view(), old(self).position()),
            ),
        decreases old(self).tokens@.len() - old(self).cursor, 25int,
    {
        let ghost tokens = self.tokens_view();
        let ghost pos = self.position();
        proof {
            reveal(function_at);
            reveal(block_at);
        }
        let fun_keyword = match self.eat(TokenKind::Fun) {
            Ok(token) => token,
            Err(error) => return Err(error),
        };
        if self.curr_token_kind() != TokenKind::Identifier {
            let mut message = prefixed_text("Expected function name, got \"", self.curr_token_lexeme());
            message.append("\"");
            return Err(self.error_here(message));
        }
        let name = match self.eat(TokenKind::Identifier) {
            Ok(token) => token,
            Err(error) => return Err(error),
        };
        match self.eat(TokenKind::LeftParen) {
            Ok(_) => {},
            Err(error) => return Err(error),
        }
        let ghost at_parameters = self.position();
        let params = if self.curr_token_kind() != TokenKind::RightParen {
            match self.parse_parameters() {
                Ok(params) => params,
                Err(error) => return Err(error),
            }
        } else {
            let params: Vec<Token<'alloc>> = Vec::new();
            assert(token_views(params@) =~= Seq::<TokenView>::empty());
            params
        };
        let ghost at_close = self.position();
        match self.eat(TokenKind::RightParen) {
            Ok(_) => {},
            Err(error) => return Err(error),
        }
        let body = match self.parse_block_statement() {
            Ok(body) => body,
            Err(error) => return Err(error),
        };
        proof {
            let next = self.position();
            lemma_inside(tokens, pos, next, pos + 1, pos + 1);
            lemma_inside(tokens, pos, next, at_close + 1, next - 1);
            if params@.len() > 0 {
                lemma_inside(tokens, pos, next, at_parameters, at_close - 1);
            }
        }
        let span = Span::new(fun_keyword.from, body.span().to);
        Ok(Statement::Function(self.allocate(Function { span, name, params, body })))
    }

    #[verifier::spinoff_prover]
    fn parse_variable_declaration(&mut self) -> (parsed: Result<Statement<'alloc>, LoxError>)
        requires
            old(self).wf(),
        ensures
            final(self).yields_statement(
                old(self),
                parsed,
                declaration_at(old(self).tokens_view(), old(self).position()),
            ),
    {
        let ghost tokens = self.tokens_view();
        let ghost pos = self.position();
        proof {
            reveal(declaration_at);
            reveal(expression_at);
        }
        let var_keyword = match self.eat(TokenKind::Var) {
            Ok(token) => token,
            Err(error) => return Err(error),
        };
        let name = match self.eat(TokenKind::Identifier) {
            Ok(token) => token,
            Err(error) => return Err(error),
        };
        let value = if self.curr_token_kind() == TokenKind::Equal {
            self.bump_any();
            match self.parse_expression() {
                Ok(value) => Some(value),
                Err(error) => return Err(error),
            }
        } else {
            None
        };
        let semi = match self.eat(TokenKind::Semicolon) {
            Ok(token) => token,
            Err(error) => return Err(error),
        };
        proof {
            let next = self.position();
            lemma_inside(tokens, pos, next, pos + 1, pos + 1);
            if value is Some {
                lemma_inside(tokens, pos, next, pos + 3, next - 2);
            }
        }
        let span = Span::new(var_keyword.from, semi.to);
        Ok(Statement::Declaration(self.allocate(Declaration { span, name, value })))
    }

    /// A condition in parentheses and the block behind it.
    #[verifier::spinoff_prover]
    fn parse_condition_and_body(&mut self) -> (parsed: Result<
        (Expression<'alloc>, Statement<'alloc>),
        LoxError,
    >)
        requires
            old(self).wf(),
        ensures
            final(self).moved_from(old(self)),
            condition_and_body_at(old(self).tokens_view(), old(self).position()) == (match parsed {
                Ok((condition, body)) => Parsed::Done {
                    value: (condition@, body@),
                    next: final(self).position(),
                },
                Err(error) => Parsed::Failed { error: error@, at: final(self).position() },
            }),
            parsed matches Ok((condition, body)) ==> {
                &&& condition@.nested()
                &&& body@.nested()
                &&& old(self).position() < final(self).position() < old(self).tokens_view().len()
                &&& old(self).tokens_view()[old(self).position()].from <= condition@.span().from
                &&& condition@.span().to <= body@.span().from
                &&& body@.span().to == old(self).tokens_view()[final(self).position() - 1].to
            },
        decreases old(self).tokens@.len() - old(self).cursor, 24int,
    {
        let ghost tokens = self.tokens_view();
        let ghost pos = self.position();
        proof {
            reveal(condition_and_body_at);
            reveal(expression_at);
            reveal(block_at);
        }
        match self.eat(TokenKind::LeftParen) {
            Ok(_) => {},
            Err(error) => return Err(error),
        }
        let condition = match self.parse_expression() {
            Ok(condition) => condition,
            Err(error) => return Err(error),
        };
        let ghost at_close = self.position();
        match self.eat(TokenKind::RightParen) {
            Ok(_) => {},
            Err(error) => return Err(error),
        }
        let body = match self.parse_block_statement() {
            Ok(body) => body,
            Err(error) => return Err(error),
        };
        proof {
            let next = self.position();
            lemma_inside(tokens, pos, next, pos + 1, at_close - 1);
            lemma_inside(tokens, pos, next, at_close + 1, next - 1);
            lemma_in_order(tokens, at_close - 1, at_close + 1);
        }
        Ok((condition, body))
    }

    #[verifier::spinoff_prover]
    fn parse_while_statement(&mut self) -> (parsed: Result<Statement<'alloc>, LoxError>)
        requires
            old(self).wf(),
        ensures
            final(self).yields_statement(
                old(self),
                parsed,
                while_at(old(self).tokens_view(), old(self).position()),
            ),
        decreases old(self).tokens@.len() - old(self).cursor, 25int,
    {
        let ghost tokens = self.tokens_view();
        let ghost pos = self.position();
        proof {
            reveal(while_at);
            reveal(condition_and_body_at);
        }
        let while_keyword = match self.eat(TokenKind::While) {
            Ok(token) => token,
            Err(error) => return Err(error),
        };
        let (condition, body) = match self.parse_condition_and_body() {
            Ok(pair) => pair,
            Err(error) => return Err(error),
        };
        proof {
            let next = self.position();
            lemma_inside(tokens, pos, next, pos + 1, next - 1);
            lemma_in_order(tokens, pos, pos + 1);
        }
        let span = Span::new(while_keyword.from, body.span().to);
        Ok(Statement::While(self.allocate(While { span, condition, body })))
    }

    /// The first clause of a `for`.
    #[verifier::spinoff_prover]
    fn parse_initializer(&mut self) -> (parsed: Result<Option<Statement<'alloc>>, LoxError>)
        requires
            old(self).wf(),
        ensures
            final(self).moved_from(old(self)),
            initializer_at(old(self).tokens_view(), old(self).position()) == (match parsed {
                Ok(Some(statement)) => Parsed::Done {
                    value: Some(statement@),
                    next: final(self).position(),
                },
                Ok(None) => Parsed::Done { value: None, next: final(self).position() },
                Err(error) => Parsed::Failed { error: error@, at: final(self).position() },
            }),
            parsed is Ok ==> old(self).position() < final(self).position(),
            parsed matches Ok(Some(statement)) ==> statement@.nested() && covers(
                old(self).tokens_view(),
                statement@.span(),
                old(self).position(),
                final(self).position(),
            ),
    {
        proof {
            reveal(initializer_at);
            reveal(declaration_at);
            reveal(expression_statement_at);
        }
        match self.curr_token_kind() {
            TokenKind::Semicolon => {
                self.bump_any();
                Ok(None)
            },
            TokenKind::Var => match self.parse_variable_declaration() {
                Ok(statement) => Ok(Some(statement)),
                Err(error) => Err(error),
            },
            _ => match self.parse_expression_statement() {
                Ok(statement) => Ok(Some(statement)),
                Err(error) => Err(error),
            },
        }
    }

    /// An expression, unless a token of kind `stop` stands where it would begin.
    #[verifier::spinoff_prover]
    fn parse_optional_expression(&mut self, stop: TokenKind) -> (parsed: Result<
        Option<Expression<'alloc>>,
        LoxError,
    >)
        requires
            old(self).wf(),
        ensures
            final(self).moved_from(old(self)),
            optional_expression_at(old(self).tokens_view(), old(self).position(), stop) == (match parsed {
                Ok(Some(expression)) => Parsed::Done {
                    value: Some(expression@),
                    next: final(self).position(),
                },
                Ok(None) => Parsed::Done { value: None, next: final(self).position() },
                Err(error) => Parsed::Failed { error: error@, at: final(self).position() },
            }),
            parsed matches Ok(None) ==> final(self).position() == old(self).position(),
            parsed matches Ok(Some(expression)) ==> expression@.nested() && covers(
                old(self).tokens_view(),
                expression@.span(),
                old(self).position(),
                final(self).position(),
            ),
    {
        proof {
            reveal(optional_expression_at);
            reveal(expression_at);
        }
        if self.curr_token_kind() == stop {
            Ok(None)
        } else {
            match self.parse_expression() {
                Ok(expression) => Ok(Some(expression)),
                Err(error) => Err(error),
            }
        }
    }

    #[verifier::spinoff_prover]
    fn parse_for_statement(&mut self) -> (parsed: Result<Statement<'alloc>, LoxError>)
        requires
            old(self).wf(),
        ensures
            final(self).yields_statement(
                old(self),
                parsed,
                for_at(old(self).tokens_view(), old(self).position()),
            ),
        decreases old(self).tokens@.len() - old(self).cursor, 27int,
    {
        let ghost tokens = self.tokens_view();
        let ghost pos = self.position();
        proof {
            reveal(for_at);
            reveal(initializer_at);
            reveal(optional_expression_at);
            reveal(block_at);
        }
        let for_keyword = match self.eat(TokenKind::For) {
            Ok(token) => token,
            Err(error) => return Err(error),
        };
        match self.eat(TokenKind::LeftParen) {
            Ok(_) => {},
            Err(error) => return Err(error),
        }
        let initializer = match self.parse_initializer() {
            Ok(initializer) => initializer,
            Err(error) => return Err(error),
        };
        let ghost at_condition = self.position();
        let condition = match self.parse_optional_expression(TokenKind::Semicolon) {
            Ok(condition) => condition,
            Err(error) => return Err(error),
        };
        let ghost at_semicolon = self.position();
        match self.eat(TokenKind::Semicolon) {
            Ok(_) => {},
            Err(error) => return Err(error),
        }
        let increment = match self.parse_optional_expression(TokenKind::RightParen) {
            Ok(increment) => increment,
            Err(error) => return Err(error),
        };
        let ghost at_close = self.position();
        match self.eat(TokenKind::RightParen) {
            Ok(_) => {},
            Err(error) => return Err(error),
        }
        let body = match self.parse_block_statement() {
            Ok(body) => body,
            Err(error) => return Err(error),
        };
        proof {
            let next = self.position();
            lemma_inside(tokens, pos, next, pos + 2, at_condition - 1);
            if condition is Some {
                lemma_inside(tokens, pos, next, at_condition, at_semicolon - 1);
            }
            if increment is Some {
                lemma_inside(tokens, pos, next, at_semicolon + 1, at_close - 1);
            }
            lemma_inside(tokens, pos, next, at_close + 1, next - 1);
        }
        let span = Span::new(for_keyword.from, body.span().to);
        Ok(
            Statement::For(
                self.allocate(For { span, initializer, condition, increment, body }),
            ),
        )
    }

    #[verifier::spinoff_prover]
    fn parse_block_statement(&mut self) -> (parsed: Result<Statement<'alloc>, LoxError>)
        requires
            old(self).wf(),
        ensures
            final(self).yields_statement(
                old(self),
                parsed,
                block_at(old(self).tokens_view(), old(self).position()),
            ),
        decreases old(self).tokens@.len() - old(self).cursor, 25int,
    {
        let ghost tokens = self.tokens_view();
        let ghost pos = self.position();
        proof {
            reveal(block_at);
            reveal(block_rest);
        }
        let start_brace = match self.eat(TokenKind::LeftBrace) {
            Ok(token) => token,
            Err(error) => return Err(error),
        };
        let mut body = StatementList::new_in(self.allocator);
        loop
            invariant
                self.moved_from(old(self)),
                tokens == old(self).tokens_view(),
                pos == old(self).position(),
                pos < self.position(),
                start_brace@ == tokens[pos],
                block_at(tokens, pos) == block_rest(
                    tokens,
                    self.position(),
                    list_view(body),
                    tokens[pos],
                ),
                forall|i: int|
                    0 <= i < list_view(body).len() ==> (#[trigger] list_view(body)[i]).nested()
                        && tokens[pos].from <= list_view(body)[i].span().from && list_view(
                        body,
                    )[i].span().to <= tokens[self.position() - 1].to,
            decreases self.tokens@.len() - self.cursor,
        {
            proof {
                reveal(block_rest);
                reveal(statement_at);
            }
            if self.curr_token_kind() == TokenKind::RightBrace {
                let end_brace = self.curr_token();
                self.bump_any();
                let span = Span::new(start_brace.from, end_brace.to);
                proof {
                    let next = self.position();
                    lemma_inside(tokens, pos, next, pos, next - 1);
                    assert forall|i: int| 0 <= i < list_view(body).len() implies span.contains(
                        (#[trigger] list_view(body)[i]).span(),
                    ) by {
                        lemma_in_order(tokens, next - 2, next - 1);
                    }
                }
                return Ok(Statement::Block(self.allocate(Block { span, body })));
            }
            let ghost at_statement = self.position();
            let ghost before = list_view(body);
            let statement = match self.parse_statement() {
                Ok(statement) => statement,
                Err(error) => return Err(error),
            };
            let ghost added = statement@;
            body.push(statement);
            proof {
                let next = self.position();
                lemma_inside(tokens, pos, next, at_statement, next - 1);
                assert forall|i: int| 0 <= i < list_view(body).len() implies (#[trigger] list_view(
                    body,
                )[i]).nested() && tokens[pos].from <= list_view(body)[i].span().from
                    && list_view(body)[i].span().to <= tokens[next - 1].to by {
                    if i < before.len() {
                        assert(list_view(body)[i] == before[i]);
                        lemma_in_order(tokens, at_statement - 1, next - 1);
                    } else {
                        assert(list_view(body)[i] == added);
                    }
                }
            }
        }
    }

    #[verifier::spinoff_prover]
    fn parse_expression_statement(&mut self) -> (parsed: Result<Statement<'alloc>, LoxError>)
        requires
            old(self).wf(),
        ensures
            final(self).yields_statement(
                old(self),
                parsed,
                expression_statement_at(old(self).tokens_view(), old(self).position()),
            ),
    {
        let ghost tokens = self.tokens_view();
        let ghost pos = self.position();
        proof {
            reveal(expression_statement_at);
            reveal(expression_at);
        }
        let expr = match self.parse_expression() {
            Ok(expr) => expr,
            Err(error) => return Err(error),
        };
        let semi = match self.eat(TokenKind::Semicolon) {
            Ok(token) => token,
            Err(error) => return Err(error),
        };
        proof {
            let next = self.position();
            lemma_inside(tokens, pos, next, pos, next - 2);
        }
        Ok(
            Statement::Expression(
                self.allocate(
                    ExpressionStatement {
                        span: Span::new(expr.span().from, semi.to),
                        expression: expr,
                    },
                ),
            ),
        )
    }

    #[verifier::spinoff_prover]
    fn parse_if_statement(&mut self) -> (parsed: Result<Statement<'alloc>, LoxError>)
        requires
            old(self).wf(),
        ensures
            final(self).yields_statement(
                old(self),
                parsed,
                if_at(old(self).tokens_view(), old(self).position()),
            ),
        decreases old(self).tokens@.len() - old(self).cursor, 25int,
    {
        let ghost tokens = self.tokens_view();
        let ghost pos = self.position();
        proof {
            reveal(if_at);
            reveal(condition_and_body_at);
            reveal(block_at);
        }
        let if_keyword = match self.eat(TokenKind::If) {
            Ok(token) => token,
            Err(error) => return Err(error),
        };
        let (condition, body) = match self.parse_condition_and_body() {
            Ok(pair) => pair,
            Err(error) => return Err(error),
        };
        let ghost at_else = self.position();
        proof {
            lemma_inside(tokens, pos, at_else, pos + 1, at_else - 1);
            lemma_in_order(tokens, pos, pos + 1);
        }
        if self.curr_token_kind() == TokenKind::Else {
            self.bump_any();
            let branch = if self.curr_token_kind() == TokenKind::If {
                self.parse_if_statement()
            } else {
                self.parse_block_statement()
            };
            let else_branch = match branch {
                Ok(branch) => branch,
                Err(error) => return Err(error),
            };
            proof {
                let next = self.position();
                lemma_inside(tokens, pos, next, pos + 1, at_else - 1);
                lemma_inside(tokens, pos, next, at_else + 1, next - 1);
            }
            let span = Span::new(if_keyword.from, else_branch.span().to);
            Ok(
                Statement::If(
                    self.allocate(If { span, condition, body, else_branch: Some(else_branch) }),
                ),
            )
        } else {
            let span = Span::new(if_keyword.from, body.span().to);
            Ok(Statement::If(self.allocate(If { span, condition, body, else_branch: None })))
        }
    }

    /// A statement that is a keyword, an expression and a semicolon: its span and its
    /// expression.
    #[verifier::spinoff_prover]
    fn parse_keyword_statement(&mut self, keyword: TokenKind) -> (parsed: Result<
        (Span, Expression<'alloc>),
        LoxError,
    >)
        requires
            old(self).wf(),
            keyword != TokenKind::Eof,
        ensures
            final(self).moved_from(old(self)),
            keyword_statement_at(old(self).tokens_view(), old(self).position(), keyword) == (match parsed {
                Ok((span, value)) => Parsed::Done {
                    value: (span, value@),
                    next: final(self).position(),
                },
                Err(error) => Parsed::Failed { error: error@, at: final(self).position() },
            }),
            parsed matches Ok((span, value)) ==> value@.nested() && span.contains(value@.span())
                && covers(
                old(self).tokens_view(),
                span,
                old(self).position(),
                final(self).position(),
            ) && span.from < span.to,
    {
        let ghost tokens = self.tokens_view();
        let ghost pos = self.position();
        proof {
            reveal(keyword_statement_at);
            reveal(expression_at);
        }
        let first = match self.eat(keyword) {
            Ok(token) => token,
            Err(error) => return Err(error),
        };
        let expr = match self.parse_expression() {
            Ok(expr) => expr,
            Err(error) => return Err(error),
        };
        let semi = match self.eat(TokenKind::Semicolon) {
            Ok(token) => token,
            Err(error) => return Err(error),
        };
        proof {
            let next = self.position();
            lemma_inside(tokens, pos, next, pos + 1, next - 2);
        }
        Ok((Span::new(first.from, semi.to), expr))
    }

    #[verifier::spinoff_prover]
    fn parse_print_statement(&mut self) -> (parsed: Result<Statement<'alloc>, LoxError>)
        requires
            old(self).wf(),
        ensures
            final(self).yields_statement(
                old(self),
                parsed,
                print_at(old(self).tokens_view(), old(self).position()),
            ),
    {
        proof {
            reveal(print_at);
            reveal(keyword_statement_at);
        }
        match self.parse_keyword_statement(TokenKind::Print) {
            Ok((span, value)) => Ok(Statement::Print(self.allocate(Print { span, value }))),
            Err(error) => Err(error),
        }
    }

    #[verifier::spinoff_prover]
    fn parse_return_statement(&mut self) -> (parsed: Result<Statement<'alloc>, LoxError>)
        requires
            old(self).wf(),
        ensures
            final(self).yields_statement(
                old(self),
                parsed,
                return_at(old(self).tokens_view(), old(self).position()),
            ),
    {
        proof {
            reveal(return_at);
            reveal(keyword_statement_at);
        }
        match self.parse_keyword_statement(TokenKind::Return) {
            Ok((span, value)) => Ok(Statement::Return(self.allocate(Return { span, value }))),
            Err(error) => Err(error),
        }
    }

    /// A parser for `source`, whose trees take the storage of their statement lists from
    /// `allocator`. The text is lexed at once.
    pub fn new(source: &'alloc str, allocator: &'alloc Bump) -> (parser: Parser<'alloc>)
        requires
            source@.len() < usize::MAX,
        ensures
            parser.wf(),
            parser.text() == source@,
            parser.position() == 0,
    {
        let mut lexer = Lexer::new(source);
        lexer.scan_tokens();
        let (tokens, lexical_errors) = lexer.into_parts();
        let _ = byte_length(source);
        proof {
            lemma_lex_from_in_order(source@, default_table(), 0);
            assert(token_views(tokens@) =~= lex(source@, default_table()).tokens);
            assert(error_views(lexical_errors@) =~= lex(source@, default_table()).errors);
        }
        Parser { allocator, source, tokens, lexical_errors, cursor: 0, errors: Vec::new() }
    }

    fn has_errors(&self) -> (any: bool)
        ensures
            any == (self.errors@.len() > 0),
    {
        self.errors.len() > 0
    }

    fn add_error(&mut self, error: LoxError)
        ensures
            final(self).errors@ == old(self).errors@.push(error),
            final(self).allocator == old(self).allocator,
            final(self).source == old(self).source,
            final(self).tokens == old(self).tokens,
            final(self).lexical_errors == old(self).lexical_errors,
            final(self).cursor == old(self).cursor,
    {
        self.errors.push(error);
    }

    /// Whether a token of kind `kind` begins a statement.
    fn starts_statement(kind: TokenKind) -> (starts: bool)
        ensures
            starts == kind.starts_statement(),
    {
        matches!(
            kind,
            TokenKind::Class | TokenKind::Fun | TokenKind::Var | TokenKind::For | TokenKind::If
                | TokenKind::While | TokenKind::Print | TokenKind::Return
        )
    }

    /// Skips tokens after an error, up to where a statement is likely to begin: behind the
    /// next semicolon, or in front of the next keyword that begins a statement, or at the end
    /// of input.
    #[verifier::spinoff_prover]
    fn synchronize(&mut self)
        requires
            old(self).wf(),
        ensures
            final(self).moved_from(old(self)),
            final(self).position() == synchronize_from(
                old(self).tokens_view(),
                old(self).position(),
            ),
    {
        let ghost tokens = self.tokens_view();
        loop
            invariant_except_break
                self.moved_from(old(self)),
                tokens == old(self).tokens_view(),
                synchronize_from(tokens, old(self).position()) == synchronize_from(
                    tokens,
                    self.position(),
                ),
            ensures
                self.moved_from(old(self)),
                self.position() == synchronize_from(tokens, old(self).position()),
            decreases self.tokens@.len() - self.cursor,
        {
            proof {
                reveal(synchronize_from);
            }
            let kind = self.curr_token_kind();
            if kind == TokenKind::Eof {
                break ;
            }
            if kind == TokenKind::Semicolon {
                self.bump_any();
                break ;
            }
            if Self::starts_statement(kind) {
                break ;
            }
            self.bump_any();
        }
    }

    /// Parses the whole text.
    ///
    /// Where lexing gave errors, they are the result and nothing is parsed. Otherwise every
    /// statement up to the end of input is parsed; after a statement that fails, parsing
    /// resumes where `synchronize` leads, and in any case behind the statement's first token.
    /// The result is the tree where no statement failed, and else the errors of those that
    /// did, in their order.
    #[verifier::spinoff_prover]
    pub fn parse(&mut self) -> (result: Result<Ast<'alloc>, Vec<LoxError>>)
        requires
            old(self).wf(),
        ensures
            final(self).wf(),
            final(self).text() == old(self).text(),
            match result {
                Ok(ast) => parse_text(old(self).text()) == Ok::<AstView, Seq<LoxErrorView>>(ast@)
                    && ast@.nested(),
                Err(errors) => parse_text(old(self).text()) == Err::<AstView, Seq<LoxErrorView>>(
                    error_views(errors@),
                ) && errors@.len() > 0,
            },
    {
        let ghost tokens = self.tokens_view();
        self.cursor = 0;
        self.errors = Vec::new();
        if self.lexical_errors.len() > 0 {
            let errors = copy_errors(&self.lexical_errors);
            assert(error_views(errors@).len() == errors@.len());
            assert(error_views(self.lexical_errors@).len() == self.lexical_errors@.len());
            return Err(errors);
        }
        let length = byte_length(self.source);
        let mut body = StatementList::new_in(self.allocator);
        assert(error_views(self.errors@) =~= Seq::<LoxErrorView>::empty());
        loop
            invariant
                self.wf(),
                self.allocator == old(self).allocator,
                self.source == old(self).source,
                self.tokens == old(self).tokens,
                self.lexical_errors == old(self).lexical_errors,
                tokens == self.tokens_view(),
                length == byte_len(self.text()),
                program_from(
                    tokens,
                    0,
                    Gathered { body: Seq::empty(), errors: Seq::empty() },
                ) == program_from(
                    tokens,
                    self.position(),
                    Gathered { body: list_view(body), errors: error_views(self.errors@) },
                ),
                forall|i: int|
                    0 <= i < list_view(body).len() ==> (#[trigger] list_view(body)[i]).nested()
                        && list_view(body)[i].span().to <= length,
            ensures
                self.wf(),
                self.source == old(self).source,
                length == byte_len(self.text()),
                tokens == self.tokens_view(),
                program_from(
                    tokens,
                    0,
                    Gathered { body: Seq::empty(), errors: Seq::empty() },
                ) == (Gathered { body: list_view(body), errors: error_views(self.errors@) }),
                forall|i: int|
                    0 <= i < list_view(body).len() ==> (#[trigger] list_view(body)[i]).nested()
                        && list_view(body)[i].span().to <= length,
            decreases self.tokens@.len() - self.cursor,
        {
            proof {
                reveal(program_from);
                reveal(statement_at);
            }
            if self.curr_token_kind() == TokenKind::Eof {
                break ;
            }
            let start = self.cursor;
            let ghost before = list_view(body);
            let ghost errors_before = self.errors@;
            match self.parse_statement() {
                Ok(stmt) => {
                    let ghost added = stmt@;
                    body.push(stmt);
                    proof {
                        lemma_in_order(tokens, self.position() - 1, tokens.len() - 1);
                        assert forall|i: int| 0 <= i < list_view(body).len() implies (
                        #[trigger] list_view(body)[i]).nested() && list_view(body)[i].span().to
                            <= length by {
                            if i < before.len() {
                                assert(list_view(body)[i] == before[i]);
                            } else {
                                assert(list_view(body)[i] == added);
                            }
                        }
                    }
                },
                Err(error) => {
                    self.add_error(error);
                    self.synchronize();
                    if self.cursor == start {
                        self.bump_any();
                    }
                    proof {
                        reveal(synchronize_from);
                        assert(error_views(self.errors@) =~= error_views(errors_before).push(
                            error@,
                        ));
                    }
                },
            }
        }

        if self.has_errors() {
            let errors = copy_errors(&self.errors);
            assert(error_views(errors@).len() == errors@.len());
            assert(error_views(self.errors@).len() == self.errors@.len());
            return Err(errors);
        }
        assert(error_views(self.errors@).len() == self.errors@.len());
        Ok(Ast::new(Span::new(0, length), body))
    }
}

} // verus!
