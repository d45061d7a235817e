use vstd::prelude::*;

verus! {

/// The closed set of lexical categories.
#[derive(Debug, Clone, Copy, PartialEq, Eq, Structural, Hash)]
pub enum TokenKind {
    // Single-character punctuation.
    LeftParen,
    RightParen,
    LeftBrace,
    RightBrace,
    Comma,
    Dot,
    Minus,
    Plus,
    Semicolon,
    Slash,
    Star,
    Question,
    Colon,
    // One- or two-character operators.
    Bang,
    BangEqual,
    Equal,
    EqualEqual,
    Greater,
    GreaterEqual,
    Less,
    LessEqual,
    // Literals.
    Identifier,
    String,
    Number,
    // Keywords.
    And,
    Class,
    Else,
    False,
    Fun,
    For,
    If,
    Nil,
    Or,
    Print,
    Return,
    Super,
    This,
    True,
    Var,
    While,
    Eof,
}

impl TokenKind {
    /// The kind's name as it is written in diagnostics and in keyword tables.
    #[verifier::opaque]
    pub open spec fn spec_name(self) -> Seq<char> {
        match self {
            TokenKind::LeftParen => "LeftParen"@,
            TokenKind::RightParen => "RightParen"@,
            TokenKind::LeftBrace => "LeftBrace"@,
            TokenKind::RightBrace => "RightBrace"@,
            TokenKind::Comma => "Comma"@,
            TokenKind::Dot => "Dot"@,
            TokenKind::Minus => "Minus"@,
            TokenKind::Plus => "Plus"@,
            TokenKind::Semicolon => "Semicolon"@,
            TokenKind::Slash => "Slash"@,
            TokenKind::Star => "Star"@,
            TokenKind::Question => "Question"@,
            TokenKind::Colon => "Colon"@,
            TokenKind::Bang => "Bang"@,
            TokenKind::BangEqual => "BangEqual"@,
            TokenKind::Equal => "Equal"@,
            TokenKind::EqualEqual => "EqualEqual"@,
            TokenKind::Greater => "Greater"@,
            TokenKind::GreaterEqual => "GreaterEqual"@,
            TokenKind::Less => "Less"@,
            TokenKind::LessEqual => "LessEqual"@,
            TokenKind::Identifier => "Identifier"@,
            TokenKind::String => "String"@,
            TokenKind::Number => "Number"@,
            TokenKind::And => "And"@,
            TokenKind::Class => "Class"@,
            TokenKind::Else => "Else"@,
            TokenKind::False => "False"@,
            TokenKind::Fun => "Fun"@,
            TokenKind::For => "For"@,
            TokenKind::If => "If"@,
            TokenKind::Nil => "Nil"@,
            TokenKind::Or => "Or"@,
            TokenKind::Print => "Print"@,
            TokenKind::Return => "Return"@,
            TokenKind::Super => "Super"@,
            TokenKind::This => "This"@,
            TokenKind::True => "True"@,
            TokenKind::Var => "Var"@,
            TokenKind::While => "While"@,
            TokenKind::Eof => "Eof"@,
        }
    }

    pub fn name(self) -> (s: &'static str)
        ensures
            s@ == self.spec_name(),
    {
        proof {
            reveal(TokenKind::spec_name);
        }
        match self {
            TokenKind::LeftParen => "LeftParen",
            TokenKind::RightParen => "RightParen",
            TokenKind::LeftBrace => "LeftBrace",
            TokenKind::RightBrace => "RightBrace",
            TokenKind::Comma => "Comma",
            TokenKind::Dot => "Dot",
            TokenKind::Minus => "Minus",
            TokenKind::Plus => "Plus",
            TokenKind::Semicolon => "Semicolon",
            TokenKind::Slash => "Slash",
            TokenKind::Star => "Star",
            TokenKind::Question => "Question",
            TokenKind::Colon => "Colon",
            TokenKind::Bang => "Bang",
            TokenKind::BangEqual => "BangEqual",
            TokenKind::Equal => "Equal",
            TokenKind::EqualEqual => "EqualEqual",
            TokenKind::Greater => "Greater",
            TokenKind::GreaterEqual => "GreaterEqual",
            TokenKind::Less => "Less",
            TokenKind::LessEqual => "LessEqual",
            TokenKind::Identifier => "Identifier",
            TokenKind::String => "String",
            TokenKind::Number => "Number",
            TokenKind::And => "And",
            TokenKind::Class => "Class",
            TokenKind::Else => "Else",
            TokenKind::False => "False",
            TokenKind::Fun => "Fun",
            TokenKind::For => "For",
            TokenKind::If => "If",
            TokenKind::Nil => "Nil",
            TokenKind::Or => "Or",
            TokenKind::Print => "Print",
            TokenKind::Return => "Return",
            TokenKind::Super => "Super",
            TokenKind::This => "This",
            TokenKind::True => "True",
            TokenKind::Var => "Var",
            TokenKind::While => "While",
            TokenKind::Eof => "Eof",
        }
    }

    /// Kinds at which a new statement begins; error recovery stops in front of them.
    pub open spec fn starts_statement(self) -> bool {
        self == TokenKind::Class || self == TokenKind::Fun || self == TokenKind::Var
            || self == TokenKind::For || self == TokenKind::If || self == TokenKind::While
            || self == TokenKind::Print || self == TokenKind::Return
    }
}

/// Every kind, in the order of their declaration.
pub open spec fn kinds() -> Seq<TokenKind> {
    seq![
        TokenKind::LeftParen,
        TokenKind::RightParen,
        TokenKind::LeftBrace,
        TokenKind::RightBrace,
        TokenKind::Comma,
        TokenKind::Dot,
        TokenKind::Minus,
        TokenKind::Plus,
        TokenKind::Semicolon,
        TokenKind::Slash,
        TokenKind::Star,
        TokenKind::Question,
        TokenKind::Colon,
        TokenKind::Bang,
        TokenKind::BangEqual,
        TokenKind::Equal,
        TokenKind::EqualEqual,
        TokenKind::Greater,
        TokenKind::GreaterEqual,
        TokenKind::Less,
        TokenKind::LessEqual,
        TokenKind::Identifier,
        TokenKind::String,
        TokenKind::Number,
        TokenKind::And,
        TokenKind::Class,
        TokenKind::Else,
        TokenKind::False,
        TokenKind::Fun,
        TokenKind::For,
        TokenKind::If,
        TokenKind::Nil,
        TokenKind::Or,
        TokenKind::Print,
        TokenKind::Return,
        TokenKind::Super,
        TokenKind::This,
        TokenKind::True,
        TokenKind::Var,
        TokenKind::While,
        TokenKind::Eof,
    ]
}

/// The first kind from index `from` on whose name is `name`.
pub open spec fn kind_named_from(name: Seq<char>, from: int) -> Option<TokenKind>
    decreases kinds().len() - from,
{
    if from < 0 || from >= kinds().len() {
        None
    } else if kinds()[from].spec_name() == name {
        Some(kinds()[from])
    } else {
        kind_named_from(name, from + 1)
    }
}

/// The kind whose name is `name`, if there is one.
pub open spec fn kind_named(name: Seq<char>) -> Option<TokenKind> {
    kind_named_from(name, 0)
}

/// A kind found by its name bears that name.
pub proof fn lemma_kind_named(name: Seq<char>, from: int)
    ensures
        kind_named_from(name, from) matches Some(k) ==> k.spec_name() == name,
    decreases kinds().len() - from,
{
    if 0 <= from < kinds().len() && kinds()[from].spec_name() != name {
        lemma_kind_named(name, from + 1);
    }
}

/// Every kind, in the order of their declaration.
pub fn all_kinds() -> (list: Vec<TokenKind>)
    ensures
        list@ == kinds(),
{
    let list = vec![
        TokenKind::LeftParen,
        TokenKind::RightParen,
        TokenKind::LeftBrace,
        TokenKind::RightBrace,
        TokenKind::Comma,
        TokenKind::Dot,
        TokenKind::Minus,
        TokenKind::Plus,
        TokenKind::Semicolon,
        TokenKind::Slash,
        TokenKind::Star,
        TokenKind::Question,
        TokenKind::Colon,
        TokenKind::Bang,
        TokenKind::BangEqual,
        TokenKind::Equal,
        TokenKind::EqualEqual,
        TokenKind::Greater,
        TokenKind::GreaterEqual,
        TokenKind::Less,
        TokenKind::LessEqual,
        TokenKind::Identifier,
        TokenKind::String,
        TokenKind::Number,
        TokenKind::And,
        TokenKind::Class,
        TokenKind::Else,
        TokenKind::False,
        TokenKind::Fun,
        TokenKind::For,
        TokenKind::If,
        TokenKind::Nil,
        TokenKind::Or,
        TokenKind::Print,
        TokenKind::Return,
        TokenKind::Super,
        TokenKind::This,
        TokenKind::True,
        TokenKind::Var,
        TokenKind::While,
        TokenKind::Eof,
    ];
    assert(list@ =~= kinds());
    list
}

} // verus!
