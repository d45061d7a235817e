pub mod expression;
pub mod operator;
pub mod span;
pub mod statement;

use vstd::prelude::*;
use span::Span;
use statement::{list_view, StatementList, StatementView};

verus! {

/// A parsed source text: its statements in order, and the span of the whole text.
#[derive(Debug)]
pub struct Ast<'alloc> {
    pub span: Span,
    pub body: StatementList<'alloc>,
}

/// The mathematical content of an [`Ast`].
pub struct AstView {
    pub span: Span,
    pub body: Seq<StatementView>,
}

impl<'alloc> View for Ast<'alloc> {
    type V = AstView;

    open spec fn view(&self) -> AstView {
        AstView { span: self.span, body: list_view(self.body) }
    }
}

impl AstView {
    /// The tree's span covers every statement, and every statement is nested in itself.
    pub open spec fn nested(self) -> bool {
        &&& self.span.wf()
        &&& forall|i: int|
            0 <= i < self.body.len() ==> self.span.contains((#[trigger] self.body[i]).span())
                && self.body[i].nested()
    }
}

impl<'alloc> Ast<'alloc> {
    pub fn new(span: Span, body: StatementList<'alloc>) -> (ast: Ast<'alloc>)
        ensures
            ast@ == (AstView { span, body: list_view(body) }),
    {
        Ast { span, body }
    }
}

} // verus!
