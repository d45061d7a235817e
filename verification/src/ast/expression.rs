use vstd::prelude::*;
use crate::lexer::token::{Token, TokenView};
use super::operator::Operator;
use super::span::{Span, Spanned};

verus! {

/// A literal as it stands in the source: its span and its decoded value.
#[derive(Debug)]
pub enum LiteralValue<'alloc> {
    String(StringLiteral<'alloc>),
    Number(NumberLiteral<'alloc>),
    Identifier(IdentifierLiteral<'alloc>),
    Boolean(BooleanLiteral),
    Nil(NilLiteral),
}

/// A string literal; `value` is the text between the quotes.
#[derive(Debug)]
pub struct StringLiteral<'alloc> {
    pub span: Span,
    pub value: &'alloc str,
}

/// A number literal; `raw` is the numeral as written.
#[derive(Debug)]
pub struct NumberLiteral<'alloc> {
    pub span: Span,
    pub raw: &'alloc str,
}

#[derive(Debug)]
pub struct IdentifierLiteral<'alloc> {
    pub span: Span,
    pub name: &'alloc str,
}

#[derive(Debug)]
pub struct BooleanLiteral {
    pub span: Span,
    pub value: bool,
}

#[derive(Debug)]
pub struct NilLiteral {
    pub span: Span,
}

/// The mathematical content of a [`LiteralValue`].
#[allow(inconsistent_fields)]
pub enum LiteralValueView {
    String { span: Span, value: Seq<char> },
    Number { span: Span, raw: Seq<char> },
    Identifier { span: Span, name: Seq<char> },
    Boolean { span: Span, value: bool },
    Nil { span: Span },
}

impl<'alloc> View for LiteralValue<'alloc> {
    type V = LiteralValueView;

    open spec fn view(&self) -> LiteralValueView {
        match self {
            LiteralValue::String(s) => LiteralValueView::String { span: s.span, value: s.value@ },
            LiteralValue::Number(n) => LiteralValueView::Number { span: n.span, raw: n.raw@ },
            LiteralValue::Identifier(i) => LiteralValueView::Identifier {
                span: i.span,
                name: i.name@,
            },
            LiteralValue::Boolean(b) => LiteralValueView::Boolean { span: b.span, value: b.value },
            LiteralValue::Nil(n) => LiteralValueView::Nil { span: n.span },
        }
    }
}

impl LiteralValueView {
    pub open spec fn span(self) -> Span {
        match self {
            LiteralValueView::String { span, .. } => span,
            LiteralValueView::Number { span, .. } => span,
            LiteralValueView::Identifier { span, .. } => span,
            LiteralValueView::Boolean { span, .. } => span,
            LiteralValueView::Nil { span } => span,
        }
    }
}

#[derive(Debug)]
pub enum Expression<'alloc> {
    Assignment(Box<Assignment<'alloc>>),
    Binary(Box<Binary<'alloc>>),
    Call(Box<Call<'alloc>>),
    Grouping(Box<Grouping<'alloc>>),
    Literal(Box<Literal<'alloc>>),
    Logical(Box<Logical<'alloc>>),
    Ternary(Box<Ternary<'alloc>>),
    Unary(Box<Unary<'alloc>>),
    Variable(Box<Variable<'alloc>>),
}

#[derive(Debug)]
pub struct Assignment<'alloc> {
    pub span: Span,
    pub target: Expression<'alloc>,
    pub value: Expression<'alloc>,
}

#[derive(Debug)]
pub struct Binary<'alloc> {
    pub span: Span,
    pub left: Expression<'alloc>,
    pub right: Expression<'alloc>,
    pub operator: Operator,
}

#[derive(Debug)]
pub struct Call<'alloc> {
    pub span: Span,
    pub callee: Expression<'alloc>,
    pub arguments: Vec<Expression<'alloc>>,
    pub end_paren: Token<'alloc>,
}

#[derive(Debug)]
pub struct Grouping<'alloc> {
    pub span: Span,
    pub expression: Expression<'alloc>,
}

#[derive(Debug)]
pub struct Literal<'alloc> {
    pub span: Span,
    pub value: LiteralValue<'alloc>,
}

#[derive(Debug)]
pub struct Logical<'alloc> {
    pub span: Span,
    pub left: Expression<'alloc>,
    pub right: Expression<'alloc>,
    pub operator: Operator,
}

#[derive(Debug)]
pub struct Ternary<'alloc> {
    pub span: Span,
    pub condition: Expression<'alloc>,
    pub true_branch: Expression<'alloc>,
    pub false_branch: Expression<'alloc>,
}

#[derive(Debug)]
pub struct Unary<'alloc> {
    pub span: Span,
    pub right: Expression<'alloc>,
    pub operator: Operator,
}

#[derive(Debug)]
pub struct Variable<'alloc> {
    pub span: Span,
    pub name: &'alloc str,
}

/// The mathematical content of an [`Expression`]: the tree without its storage.
#[allow(inconsistent_fields)]
pub enum ExpressionView {
    Assignment { span: Span, target: Box<ExpressionView>, value: Box<ExpressionView> },
    Binary { span: Span, left: Box<ExpressionView>, right: Box<ExpressionView>, operator: Operator },
    Call {
        span: Span,
        callee: Box<ExpressionView>,
        arguments: Seq<ExpressionView>,
        end_paren: TokenView,
    },
    Grouping { span: Span, expression: Box<ExpressionView> },
    Literal { span: Span, value: LiteralValueView },
    Logical { span: Span, left: Box<ExpressionView>, right: Box<ExpressionView>, operator: Operator },
    Ternary {
        span: Span,
        condition: Box<ExpressionView>,
        true_branch: Box<ExpressionView>,
        false_branch: Box<ExpressionView>,
    },
    Unary { span: Span, right: Box<ExpressionView>, operator: Operator },
    Variable { span: Span, name: Seq<char> },
}

/// The view of an expression.
pub open spec fn expression_view(e: Expression) -> ExpressionView
    decreases e,
{
    match e {
        Expression::Assignment(a) => ExpressionView::Assignment {
            span: a.span,
            target: Box::new(expression_view(a.target)),
            value: Box::new(expression_view(a.value)),
        },
        Expression::Binary(b) => ExpressionView::Binary {
            span: b.span,
            left: Box::new(expression_view(b.left)),
            right: Box::new(expression_view(b.right)),
            operator: b.operator,
        },
        Expression::Call(c) => ExpressionView::Call {
            span: c.span,
            callee: Box::new(expression_view(c.callee)),
            arguments: Seq::new(
                c.arguments@.len(),
                |i: int|
                    if 0 <= i < c.arguments@.len() {
                        expression_view(c.arguments@[i])
                    } else {
                        arbitrary()
                    },
            ),
            end_paren: c.end_paren@,
        },
        Expression::Grouping(g) => ExpressionView::Grouping {
            span: g.span,
            expression: Box::new(expression_view(g.expression)),
        },
        Expression::Literal(l) => ExpressionView::Literal { span: l.span, value: l.value@ },
        Expression::Logical(l) => ExpressionView::Logical {
            span: l.span,
            left: Box::new(expression_view(l.left)),
            right: Box::new(expression_view(l.right)),
            operator: l.operator,
        },
        Expression::Ternary(t) => ExpressionView::Ternary {
            span: t.span,
            condition: Box::new(expression_view(t.condition)),
            true_branch: Box::new(expression_view(t.true_branch)),
            false_branch: Box::new(expression_view(t.false_branch)),
        },
        Expression::Unary(u) => ExpressionView::Unary {
            span: u.span,
            right: Box::new(expression_view(u.right)),
            operator: u.operator,
        },
        Expression::Variable(v) => ExpressionView::Variable { span: v.span, name: v.name@ },
    }
}

impl<'alloc> View for Expression<'alloc> {
    type V = ExpressionView;

    open spec fn view(&self) -> ExpressionView {
        expression_view(*self)
    }
}

/// The views of a sequence of expressions.
pub open spec fn expression_views(items: Seq<Expression>) -> Seq<ExpressionView> {
    Seq::new(items.len(), |i: int| expression_view(items[i]))
}

/// The view of an optional expression.
pub open spec fn optional_expression_view(e: Option<Expression>) -> Option<ExpressionView> {
    match e {
        Some(e) => Some(e@),
        None => None,
    }
}

impl ExpressionView {
    /// The span that the expression covers.
    pub open spec fn span(self) -> Span {
        match self {
            ExpressionView::Assignment { span, .. } => span,
            ExpressionView::Binary { span, .. } => span,
            ExpressionView::Call { span, .. } => span,
            ExpressionView::Grouping { span, .. } => span,
            ExpressionView::Literal { span, .. } => span,
            ExpressionView::Logical { span, .. } => span,
            ExpressionView::Ternary { span, .. } => span,
            ExpressionView::Unary { span, .. } => span,
            ExpressionView::Variable { span, .. } => span,
        }
    }

    /// Every node of the tree covers at least one byte and covers each of its children.
    pub open spec fn nested(self) -> bool
        decreases self,
    {
        &&& self.span().from < self.span().to
        &&& match self {
            ExpressionView::Assignment { span, target, value } => {
                &&& span.contains(target.span()) && target.nested()
                &&& span.contains(value.span()) && value.nested()
            },
            ExpressionView::Binary { span, left, right, operator } => {
                &&& span.contains(left.span()) && left.nested()
                &&& span.contains(right.span()) && right.nested()
                &&& span.contains(operator.spec_span())
            },
            ExpressionView::Call { span, callee, arguments, end_paren } => {
                &&& span.contains(callee.span()) && callee.nested()
                &&& forall|i: int|
                    0 <= i < arguments.len() ==> span.contains((#[trigger] arguments[i]).span())
                        && arguments[i].nested()
            },
            ExpressionView::Grouping { span, expression } => {
                span.contains(expression.span()) && expression.nested()
            },
            ExpressionView::Literal { span, value } => span.contains(value.span()),
            ExpressionView::Logical { span, left, right, operator } => {
                &&& span.contains(left.span()) && left.nested()
                &&& span.contains(right.span()) && right.nested()
                &&& span.contains(operator.spec_span())
            },
            ExpressionView::Ternary { span, condition, true_branch, false_branch } => {
                &&& span.contains(condition.span()) && condition.nested()
                &&& span.contains(true_branch.span()) && true_branch.nested()
                &&& span.contains(false_branch.span()) && false_branch.nested()
            },
            ExpressionView::Unary { span, right, operator } => {
                &&& span.contains(right.span()) && right.nested()
                &&& span.contains(operator.spec_span())
            },
            ExpressionView::Variable { .. } => true,
        }
    }
}

impl<'alloc> Expression<'alloc> {
    /// The span that the expression covers.
    pub fn span(&self) -> (span: Span)
        ensures
            span == self@.span(),
    {
        match self {
            Expression::Assignment(assignment) => assignment.span,
            Expression::Binary(binary) => binary.span,
            Expression::Call(call) => call.span,
            Expression::Grouping(grouping) => grouping.span,
            Expression::Literal(literal) => literal.span,
            Expression::Logical(logical) => logical.span,
            Expression::Ternary(ternary) => ternary.span,
            Expression::Unary(unary) => unary.span,
            Expression::Variable(variable) => variable.span,
        }
    }
}

impl<'alloc> Spanned for Expression<'alloc> {
    open spec fn spanned(&self) -> Span {
        self@.span()
    }

    fn span(&self) -> (span: Span) {
        Expression::span(self)
    }
}

impl Spanned for Operator {
    open spec fn spanned(&self) -> Span {
        self.spec_span()
    }

    fn span(&self) -> (span: Span) {
        Operator::span(self)
    }
}

} // verus!
