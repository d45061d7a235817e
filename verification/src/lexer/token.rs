use vstd::prelude::*;
use vstd::string::StringExecFns;
use crate::text::{decimal, push_decimal};
use super::token_kind::TokenKind;

verus! {

/// The decoded payload of a literal token: a slice of the source text.
///
/// A number carries its numeral as written; a string carries the text between its quotes.
#[derive(Debug, Clone, Copy, PartialEq)]
pub enum TokenLiteral<'de> {
    Number(&'de str),
    String(&'de str),
}

/// The mathematical content of a [`TokenLiteral`].
pub enum LiteralView {
    Number(Seq<char>),
    String(Seq<char>),
}

impl<'de> View for TokenLiteral<'de> {
    type V = LiteralView;

    open spec fn view(&self) -> LiteralView {
        match self {
            TokenLiteral::Number(raw) => LiteralView::Number(raw@),
            TokenLiteral::String(text) => LiteralView::String(text@),
        }
    }
}

/// One lexical unit: its kind, the source text it was read from, and where that text lies.
#[derive(Debug, Clone, Copy, PartialEq)]
pub struct Token<'de> {
    pub kind: TokenKind,
    pub lexeme: &'de str,
    pub literal: Option<TokenLiteral<'de>>,
    pub line: usize,
    pub from: usize,
    pub to: usize,
}

/// The mathematical content of a [`Token`].
pub struct TokenView {
    pub kind: TokenKind,
    pub lexeme: Seq<char>,
    pub literal: Option<LiteralView>,
    pub line: usize,
    pub from: usize,
    pub to: usize,
}

/// The view of an optional literal.
pub open spec fn literal_view(literal: Option<TokenLiteral>) -> Option<LiteralView> {
    match literal {
        Some(l) => Some(l@),
        None => None,
    }
}

impl<'de> View for Token<'de> {
    type V = TokenView;

    open spec fn view(&self) -> TokenView {
        TokenView {
            kind: self.kind,
            lexeme: self.lexeme@,
            literal: literal_view(self.literal),
            line: self.line,
            from: self.from,
            to: self.to,
        }
    }
}

impl TokenView {
    /// The one-line description of a token: kind, line, start and end.
    pub open spec fn rendered(self) -> Seq<char> {
        self.kind.spec_name() + " "@ + decimal(self.line as nat) + " "@ + decimal(self.from as nat)
            + " "@ + decimal(self.to as nat)
    }
}

impl<'de> Token<'de> {
    /// A token of the given kind and position, with no text attached.
    pub fn new(kind: TokenKind, line: usize, from: usize, to: usize) -> (token: Token<'de>)
        ensures
            token@ == (TokenView {
                kind,
                lexeme: Seq::<char>::empty(),
                literal: None,
                line,
                from,
                to,
            }),
    {
        proof {
            reveal_strlit("");
        }
        let token = Token { kind, lexeme: "", literal: None, line, from, to };
        assert(token.lexeme@ =~= Seq::<char>::empty());
        token
    }

    /// The same token carrying its source text and decoded payload.
    pub fn with_text(self, lexeme: &'de str, literal: Option<TokenLiteral<'de>>) -> (token: Token<
        'de,
    >)
        ensures
            token@ == (TokenView { lexeme: lexeme@, literal: literal_view(literal), ..self@ }),
    {
        Token { kind: self.kind, lexeme, literal, line: self.line, from: self.from, to: self.to }
    }

    /// The one-line description of this token.
    pub fn to_string(&self) -> (s: String)
        ensures
            s@ == self@.rendered(),
    {
        let mut out = String::from_str(self.kind.name());
        out.append(" ");
        push_decimal(&mut out, self.line);
        out.append(" ");
        push_decimal(&mut out, self.from);
        out.append(" ");
        push_decimal(&mut out, self.to);
        out
    }
}

/// The views of a sequence of tokens.
pub open spec fn token_views(tokens: Seq<Token>) -> Seq<TokenView> {
    tokens.map_values(|t: Token| t@)
}

} // verus!
