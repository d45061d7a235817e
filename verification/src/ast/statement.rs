use vstd::prelude::*;
use crate::lexer::token::{token_views, Token, TokenView};
use super::expression::{optional_expression_view, Expression as Expr, ExpressionView};
use super::span::{Span, Spanned};

verus! {

#[verifier::external_type_specification]
#[verifier::external_body]
pub struct ExBump<const MIN_ALIGN: usize>(bumpalo::Bump<MIN_ALIGN>);

/// An ordered list of statements whose storage lies in a bump arena: a
/// `bumpalo::collections::Vec`.
///
/// The verifier does not look inside. What the list holds is named by [`list_view`], and
/// the four functions that reach into it say, unproved, what the vector of `bumpalo` does.
#[verifier::external_body]
#[derive(Debug)]
pub struct StatementList<'alloc> {
    items: bumpalo::collections::Vec<'alloc, Statement<'alloc>>,
}

/// The statements that a list holds, in their order, each by its view.
pub uninterp spec fn list_view(list: StatementList) -> Seq<StatementView>;

impl<'alloc> StatementList<'alloc> {
    /// An empty list in the arena `allocator`.
    ///
    /// Calls `bumpalo::collections::Vec::new_in`; the contract claims that the new vector
    /// holds nothing.
    #[verifier::external_body]
    pub(crate) fn new_in(allocator: &'alloc bumpalo::Bump) -> (list: StatementList<'alloc>)
        ensures
            list_view(list) == Seq::<StatementView>::empty(),
    {
        StatementList { items: bumpalo::collections::Vec::new_in(allocator) }
    }

    /// Appends `statement`.
    ///
    /// Calls `bumpalo::collections::Vec::push`; the contract claims that the vector then holds
    /// what it held, followed by the new item.
    #[verifier::external_body]
    pub(crate) fn push(&mut self, statement: Statement<'alloc>)
        ensures
            list_view(*final(self)) == list_view(*old(self)).push(statement@),
    {
        self.items.push(statement)
    }

    /// Calls `bumpalo::collections::Vec::len`; the contract claims that it gives the number
    /// of items held.
    #[verifier::external_body]
    fn count(&self) -> (n: usize)
        ensures
            n == list_view(*self).len(),
    {
        self.items.len()
    }

    /// Indexes the `bumpalo::collections::Vec`; the contract claims that the item of an index
    /// below the length is the one that stands there in the order of insertion.
    #[verifier::external_body]
    fn item(&self, i: usize) -> (statement: &Statement<'alloc>)
        requires
            i < list_view(*self).len(),
        ensures
            statement@ == list_view(*self)[i as int],
    {
        &self.items[i]
    }

    /// The number of statements.
    pub fn len(&self) -> (n: usize)
        ensures
            n == list_view(*self).len(),
    {
        self.count()
    }

    /// Whether the list holds no statement.
    pub fn is_empty(&self) -> (empty: bool)
        ensures
            empty == (list_view(*self).len() == 0),
    {
        self.count() == 0
    }

    /// The statement of index `i`, or `None` where the list is no longer than `i`.
    pub fn get(&self, i: usize) -> (statement: Option<&Statement<'alloc>>)
        ensures
            match statement {
                Some(s) => i < list_view(*self).len() && s@ == list_view(*self)[i as int],
                None => i >= list_view(*self).len(),
            },
    {
        if i < self.count() {
            Some(self.item(i))
        } else {
            None
        }
    }
}

#[derive(Debug)]
pub enum Statement<'alloc> {
    Block(Box<Block<'alloc>>),
    Expression(Box<Expression<'alloc>>),
    For(Box<For<'alloc>>),
    Function(Box<Function<'alloc>>),
    If(Box<If<'alloc>>),
    Print(Box<Print<'alloc>>),
    Return(Box<Return<'alloc>>),
    While(Box<While<'alloc>>),
    Declaration(Box<Declaration<'alloc>>),
}

#[derive(Debug)]
pub struct Block<'alloc> {
    pub span: Span,
    pub body: StatementList<'alloc>,
}

#[derive(Debug)]
pub struct Declaration<'alloc> {
    pub span: Span,
    pub name: Token<'alloc>,
    pub value: Option<Expr<'alloc>>,
}

#[derive(Debug)]
pub struct Expression<'alloc> {
    pub span: Span,
    pub expression: Expr<'alloc>,
}

#[derive(Debug)]
pub struct For<'alloc> {
    pub span: Span,
    pub initializer: Option<Statement<'alloc>>,
    pub condition: Option<Expr<'alloc>>,
    pub increment: Option<Expr<'alloc>>,
    pub body: Statement<'alloc>,
}

#[derive(Debug)]
pub struct Function<'alloc> {
    pub span: Span,
    pub name: Token<'alloc>,
    pub params: Vec<Token<'alloc>>,
    pub body: Statement<'alloc>,
}

#[derive(Debug)]
pub struct If<'alloc> {
    pub span: Span,
    pub condition: Expr<'alloc>,
    pub body: Statement<'alloc>,
    pub else_branch: Option<Statement<'alloc>>,
}

#[derive(Debug)]
pub struct Print<'alloc> {
    pub span: Span,
    pub value: Expr<'alloc>,
}

#[derive(Debug)]
pub struct Return<'alloc> {
    pub span: Span,
    pub value: Expr<'alloc>,
}

#[derive(Debug)]
pub struct While<'alloc> {
    pub span: Span,
    pub condition: Expr<'alloc>,
    pub body: Statement<'alloc>,
}

/// The mathematical content of a [`Statement`]: the tree without its storage.
#[allow(inconsistent_fields)]
pub enum StatementView {
    Block { span: Span, body: Seq<StatementView> },
    Expression { span: Span, expression: ExpressionView },
    For {
        span: Span,
        initializer: Option<Box<StatementView>>,
        condition: Option<ExpressionView>,
        increment: Option<ExpressionView>,
        body: Box<StatementView>,
    },
    Function { span: Span, name: TokenView, params: Seq<TokenView>, body: Box<StatementView> },
    If {
        span: Span,
        condition: ExpressionView,
        body: Box<StatementView>,
        else_branch: Option<Box<StatementView>>,
    },
    Print { span: Span, value: ExpressionView },
    Return { span: Span, value: ExpressionView },
    While { span: Span, condition: ExpressionView, body: Box<StatementView> },
    Declaration { span: Span, name: TokenView, value: Option<ExpressionView> },
}

/// The view of a statement.
pub open spec fn statement_view(s: Statement) -> StatementView
    decreases s,
{
    match s {
        Statement::Block(b) => StatementView::Block { span: b.span, body: list_view(b.body) },
        Statement::Expression(e) => StatementView::Expression {
            span: e.span,
            expression: e.expression@,
        },
        Statement::For(f) => StatementView::For {
            span: f.span,
            initializer: match f.initializer {
                Some(i) => Some(Box::new(statement_view(i))),
                None => None,
            },
            condition: optional_expression_view(f.condition),
            increment: optional_expression_view(f.increment),
            body: Box::new(statement_view(f.body)),
        },
        Statement::Function(f) => StatementView::Function {
            span: f.span,
            name: f.name@,
            params: token_views(f.params@),
            body: Box::new(statement_view(f.body)),
        },
        Statement::If(i) => StatementView::If {
            span: i.span,
            condition: i.condition@,
            body: Box::new(statement_view(i.body)),
            else_branch: match i.else_branch {
                Some(e) => Some(Box::new(statement_view(e))),
                None => None,
            },
        },
        Statement::Print(p) => StatementView::Print { span: p.span, value: p.value@ },
        Statement::Return(r) => StatementView::Return { span: r.span, value: r.value@ },
        Statement::While(w) => StatementView::While {
            span: w.span,
            condition: w.condition@,
            body: Box::new(statement_view(w.body)),
        },
        Statement::Declaration(d) => StatementView::Declaration {
            span: d.span,
            name: d.name@,
            value: optional_expression_view(d.value),
        },
    }
}

impl<'alloc> View for Statement<'alloc> {
    type V = StatementView;

    open spec fn view(&self) -> StatementView {
        statement_view(*self)
    }
}

impl StatementView {
    /// The span that the statement covers.
    pub open spec fn span(self) -> Span {
        match self {
            StatementView::Block { span, .. } => span,
            StatementView::Expression { span, .. } => span,
            StatementView::For { span, .. } => span,
            StatementView::Function { span, .. } => span,
            StatementView::If { span, .. } => span,
            StatementView::Print { span, .. } => span,
            StatementView::Return { span, .. } => span,
            StatementView::While { span, .. } => span,
            StatementView::Declaration { span, .. } => span,
        }
    }

    /// Every node of the tree covers at least one byte and covers each of its children.
    pub open spec fn nested(self) -> bool
        decreases self,
    {
        &&& self.span().from < self.span().to
        &&& match self {
            StatementView::Block { span, body } => forall|i: int|
                0 <= i < body.len() ==> span.contains((#[trigger] body[i]).span())
                    && body[i].nested(),
            StatementView::Expression { span, expression } => span.contains(expression.span())
                && expression.nested(),
            StatementView::For { span, initializer, condition, increment, body } => {
                &&& initializer matches Some(i) ==> span.contains(i.span()) && i.nested()
                &&& condition matches Some(c) ==> span.contains(c.span()) && c.nested()
                &&& increment matches Some(i) ==> span.contains(i.span()) && i.nested()
                &&& span.contains(body.span()) && body.nested()
            },
            StatementView::Function { span, name, params, body } => {
                &&& span.contains(Span { from: name.from, to: name.to })
                &&& forall|i: int|
                    0 <= i < params.len() ==> span.contains(
                        Span { from: (#[trigger] params[i]).from, to: params[i].to },
                    )
                &&& span.contains(body.span()) && body.nested()
            },
            StatementView::If { span, condition, body, else_branch } => {
                &&& span.contains(condition.span()) && condition.nested()
                &&& span.contains(body.span()) && body.nested()
                &&& else_branch matches Some(e) ==> span.contains(e.span()) && e.nested()
            },
            StatementView::Print { span, value } => span.contains(value.span()) && value.nested(),
            StatementView::Return { span, value } => span.contains(value.span())
                && value.nested(),
            StatementView::While { span, condition, body } => {
                &&& span.contains(condition.span()) && condition.nested()
                &&& span.contains(body.span()) && body.nested()
            },
            StatementView::Declaration { span, name, value } => {
                &&& span.contains(Span { from: name.from, to: name.to })
                &&& value matches Some(v) ==> span.contains(v.span()) && v.nested()
            },
        }
    }
}

impl<'alloc> Statement<'alloc> {
    /// The span that the statement covers.
    pub fn span(&self) -> (span: Span)
        ensures
            span == self@.span(),
    {
        match self {
            Statement::Block(block) => block.span,
            Statement::Expression(expr) => expr.span,
            Statement::For(for_) => for_.span,
            Statement::Function(fun) => fun.span,
            Statement::If(if_) => if_.span,
            Statement::Print(print) => print.span,
            Statement::Return(ret) => ret.span,
            Statement::While(while_) => while_.span,
            Statement::Declaration(decl) => decl.span,
        }
    }
}

impl<'alloc> Spanned for Statement<'alloc> {
    open spec fn spanned(&self) -> Span {
        self@.span()
    }

    fn span(&self) -> (span: Span) {
        Statement::span(self)
    }
}

} // verus!
