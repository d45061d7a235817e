use vstd::prelude::*;
use super::span::Span;

verus! {

/// A unary, binary or logical operator, with the span of its token.
#[derive(Debug, Clone, Copy, PartialEq, Eq, Structural)]
pub enum Operator {
    And(Span),
    Bang(Span),
    BangEqual(Span),
    EqualEqual(Span),
    Greater(Span),
    GreaterEqual(Span),
    Less(Span),
    LessEqual(Span),
    Minus(Span),
    Or(Span),
    Plus(Span),
    Slash(Span),
    Star(Span),
}

impl Operator {
    /// The span of the operator's token.
    pub open spec fn spec_span(self) -> Span {
        match self {
            Operator::And(span) => span,
            Operator::Bang(span) => span,
            Operator::BangEqual(span) => span,
            Operator::EqualEqual(span) => span,
            Operator::Greater(span) => span,
            Operator::GreaterEqual(span) => span,
            Operator::Less(span) => span,
            Operator::LessEqual(span) => span,
            Operator::Minus(span) => span,
            Operator::Or(span) => span,
            Operator::Plus(span) => span,
            Operator::Slash(span) => span,
            Operator::Star(span) => span,
        }
    }

    /// The span of the operator's token.
    pub fn span(&self) -> (span: Span)
        ensures
            span == self.spec_span(),
    {
        match self {
            Operator::And(span) => *span,
            Operator::Bang(span) => *span,
            Operator::BangEqual(span) => *span,
            Operator::EqualEqual(span) => *span,
            Operator::Greater(span) => *span,
            Operator::GreaterEqual(span) => *span,
            Operator::Less(span) => *span,
            Operator::LessEqual(span) => *span,
            Operator::Minus(span) => *span,
            Operator::Or(span) => *span,
            Operator::Plus(span) => *span,
            Operator::Slash(span) => *span,
            Operator::Star(span) => *span,
        }
    }
}

} // verus!
