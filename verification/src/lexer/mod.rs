pub mod keyword;
pub mod reader;
pub mod rules;
pub mod token;
pub mod token_kind;

use vstd::prelude::*;
use vstd::string::StringExecFns;
use crate::lox_error::{copy_errors, error_views, LoxError, LoxErrorView};
use crate::text::{lemma_byte_offset_monotone, lemma_byte_offset_step, push_decimal, slice};
use keyword::{
    combine_keywords,
    combined_table,
    default_table,
    get_default_keywords,
    overlay_entries,
    Keywords,
};
use reader::{newlines, Reader};
use rules::{
    comment_chars,
    digit_chars,
    emit,
    identifier_step,
    is_alpha,
    is_alphanumeric,
    is_digit,
    lemma_run_end_is,
    lemma_step_advances,
    lex_from,
    number_step,
    operator_step,
    optional,
    punctuation,
    scan_step,
    skip_to,
    slash_step,
    string_chars,
    string_step,
    token_at,
    unexpected_message,
    unterminated_message,
    word_chars,
    Step,
};
use token::{literal_view, token_views, Token, TokenLiteral, TokenView};
use token_kind::TokenKind;

verus! {

/// Turns a source text into tokens, collecting the errors it meets on the way.
pub struct Lexer<'de> {
    source: &'de str,
    reader: Reader<'de>,
    pub tokens: Vec<Token<'de>>,
    keywords: Keywords,
    errors: Vec<LoxError>,
}

/// The lexemes that take more than a look at their first character.
pub enum MultiCharToken {
    String,
    Number,
    Ident,
    Slash,
    IfEqualElse(TokenKind, TokenKind),
}

fn is_digit_char(c: char) -> (b: bool)
    ensures
        b == is_digit(c),
        b == digit_chars()(c),
{
    '0' <= c && c <= '9'
}

fn is_alpha_char(c: char) -> (b: bool)
    ensures
        b == is_alpha(c),
{
    ('a' <= c && c <= 'z') || ('A' <= c && c <= 'Z') || c == '_'
}

fn is_word_char(c: char) -> (b: bool)
    ensures
        b == is_alphanumeric(c),
        b == word_chars()(c),
{
    is_alpha_char(c) || is_digit_char(c)
}

fn is_string_char(c: char) -> (b: bool)
    ensures
        b == string_chars()(c),
{
    c != '"'
}

fn is_comment_char(c: char) -> (b: bool)
    ensures
        b == comment_chars()(c),
{
    c != '\n'
}

fn punctuation_kind(c: char) -> (kind: Option<TokenKind>)
    ensures
        kind == punctuation(c),
{
    if c == '(' {
        Some(TokenKind::LeftParen)
    } else if c == ')' {
        Some(TokenKind::RightParen)
    } else if c == '{' {
        Some(TokenKind::LeftBrace)
    } else if c == '}' {
        Some(TokenKind::RightBrace)
    } else if c == ',' {
        Some(TokenKind::Comma)
    } else if c == '.' {
        Some(TokenKind::Dot)
    } else if c == '-' {
        Some(TokenKind::Minus)
    } else if c == '+' {
        Some(TokenKind::Plus)
    } else if c == ';' {
        Some(TokenKind::Semicolon)
    } else if c == '*' {
        Some(TokenKind::Star)
    } else if c == '?' {
        Some(TokenKind::Question)
    } else if c == ':' {
        Some(TokenKind::Colon)
    } else {
        None
    }
}

fn unterminated_text(line: usize) -> (message: String)
    ensures
        message@ == unterminated_message(line),
{
    let mut out = String::from_str("[Line ");
    push_decimal(&mut out, line);
    out.append("]: Unterminated string");
    out
}

fn unexpected_text(line: usize, found: &str) -> (message: String)
    ensures
        message@ == unexpected_message(line, found@),
{
    let mut out = String::from_str("[Line ");
    push_decimal(&mut out, line);
    out.append("]: Unexpected character: '");
    out.append(found);
    out.append("'");
    out
}

/// The line of a position does not change over a character that is no line feed.
proof fn lemma_line_step(src: Seq<char>, i: int)
    requires
        0 <= i < src.len(),
    ensures
        newlines(src.take(i + 1)) == newlines(src.take(i)) + if src[i] == '\n' {
            1nat
        } else {
            0nat
        },
{
    assert(src.take(i + 1).drop_last() =~= src.take(i));
}

/// The line of a position does not change over characters that are no line feeds.
proof fn lemma_line_run(src: Seq<char>, i: int, j: int)
    requires
        0 <= i <= j <= src.len(),
        forall|k: int| i <= k < j ==> src[k] != '\n',
    ensures
        newlines(src.take(j)) == newlines(src.take(i)),
    decreases j - i,
{
    if i < j {
        lemma_line_run(src, i, j - 1);
        lemma_line_step(src, j - 1);
    }
}

impl<'de> Lexer<'de> {
    /// The text being read.
    pub closed spec fn text(&self) -> Seq<char> {
        self.source@
    }

    /// The keyword table in use.
    pub closed spec fn table(&self) -> Map<Seq<char>, TokenKind> {
        self.keywords@
    }

    /// The tokens produced so far.
    pub closed spec fn tokens_view(&self) -> Seq<TokenView> {
        token_views(self.tokens@)
    }

    /// The errors met so far.
    pub closed spec fn errors_view(&self) -> Seq<LoxErrorView> {
        error_views(self.errors@)
    }

    /// The index, in characters, of the next character to read.
    pub closed spec fn index(&self) -> int {
        self.reader.index()
    }

    /// The lexer stands between two lexemes of its text.
    pub closed spec fn wf(&self) -> bool {
        &&& self.reader.wf()
        &&& self.reader.text() == self.source@
        &&& self.reader.start_index() == self.reader.index()
    }

    /// The lexer is reading the lexeme that begins at index `i`.
    spec fn reading(&self, i: int) -> bool {
        &&& self.reader.wf()
        &&& self.reader.text() == self.source@
        &&& self.reader.start_index() == i
    }

    /// `self` is what `before` becomes by `step`.
    spec fn stepped(&self, before: &Lexer, step: Step) -> bool {
        &&& self.wf()
        &&& self.source@ == before.source@
        &&& self.keywords@ == before.keywords@
        &&& self.reader.index() == step.next
        &&& self.tokens_view() == before.tokens_view() + optional(step.token)
        &&& self.errors_view() == before.errors_view() + optional(step.error)
    }

    /// A lexer at the start of `source`, with the language's own keywords.
    pub fn new(source: &'de str) -> (lexer: Lexer<'de>)
        requires
            source@.len() < usize::MAX,
        ensures
            lexer.wf(),
            lexer.text() == source@,
            lexer.table() == default_table(),
            lexer.index() == 0,
            lexer.tokens_view() == Seq::<TokenView>::empty(),
            lexer.errors_view() == Seq::<LoxErrorView>::empty(),
    {
        let lexer = Lexer {
            source,
            reader: Reader::new(source),
            tokens: Vec::new(),
            keywords: get_default_keywords(),
            errors: Vec::new(),
        };
        assert(lexer.tokens_view() =~= Seq::<TokenView>::empty());
        assert(lexer.errors_view() =~= Seq::<LoxErrorView>::empty());
        lexer
    }

    /// A lexer at the start of `source`, with the keywords that `keywords` adds to or replaces
    /// among the language's own: a JSON object from keyword text to kind name.
    pub fn new_with_keywords(source: &'de str, keywords: Option<&str>) -> (lexer: Lexer<'de>)
        requires
            source@.len() < usize::MAX,
        ensures
            lexer.wf(),
            lexer.text() == source@,
            lexer.table() == match keywords {
                Some(json) => combined_table(overlay_entries(json@)),
                None => default_table(),
            },
            lexer.index() == 0,
            lexer.tokens_view() == Seq::<TokenView>::empty(),
            lexer.errors_view() == Seq::<LoxErrorView>::empty(),
    {
        let lexer = Lexer {
            source,
            reader: Reader::new(source),
            tokens: Vec::new(),
            keywords: combine_keywords(keywords),
            errors: Vec::new(),
        };
        assert(lexer.tokens_view() =~= Seq::<TokenView>::empty());
        assert(lexer.errors_view() =~= Seq::<LoxErrorView>::empty());
        lexer
    }

    fn add_error(&mut self, error: LoxError)
        ensures
            final(self).errors_view() == old(self).errors_view().push(error@),
            final(self).source == old(self).source,
            final(self).reader == old(self).reader,
            final(self).tokens == old(self).tokens,
            final(self).keywords == old(self).keywords,
    {
        self.errors.push(error);
        assert(self.errors_view() =~= old(self).errors_view().push(error@));
    }

    pub fn has_errors(&self) -> (any: bool)
        ensures
            any == (self.errors_view().len() > 0),
    {
        self.errors.len() > 0
    }

    fn add_token(&mut self, kind: TokenKind)
        requires
            old(self).reading(old(self).reader.start_index()),
        ensures
            final(self).stepped(
                old(self),
                emit(
                    old(self).text(),
                    kind,
                    old(self).reader.start_index(),
                    old(self).reader.index(),
                ),
            ),
    {
        self.add_new_token(kind, None);
    }

    fn add_token_with_literal(&mut self, kind: TokenKind, literal: TokenLiteral<'de>)
        requires
            old(self).reading(old(self).reader.start_index()),
        ensures
            final(self).stepped(
                old(self),
                Step {
                    next: old(self).reader.index(),
                    token: Some(
                        token_at(
                            old(self).text(),
                            kind,
                            old(self).reader.start_index(),
                            old(self).reader.index(),
                            Some(literal@),
                        ),
                    ),
                    error: None,
                },
            ),
    {
        self.add_new_token(kind, Some(literal));
    }

    fn add_new_token(&mut self, kind: TokenKind, literal: Option<TokenLiteral<'de>>)
        requires
            old(self).reading(old(self).reader.start_index()),
        ensures
            final(self).stepped(
                old(self),
                Step {
                    next: old(self).reader.index(),
                    token: Some(
                        token_at(
                            old(self).text(),
                            kind,
                            old(self).reader.start_index(),
                            old(self).reader.index(),
                            literal_view(literal),
                        ),
                    ),
                    error: None,
                },
            ),
    {
        proof {
            self.reader.lemma_wf();
        }
        let lexeme = slice(
            self.source,
            self.reader.start_offset(),
            self.reader.cursor_offset(),
            Ghost(self.reader.start_index()),
            Ghost(self.reader.index()),
        );
        let token = Token::new(
            kind,
            self.reader.line_number(),
            self.reader.start_offset(),
            self.reader.cursor_offset(),
        ).with_text(lexeme, literal);
        self.tokens.push(token);
        self.reader.sync();
        proof {
            let made = token_at(
                old(self).text(),
                kind,
                old(self).reader.start_index(),
                old(self).reader.index(),
                literal_view(literal),
            );
            assert(token@ == made);
            assert(self.tokens_view() =~= old(self).tokens_view() + optional(Some(made)));
            assert(self.errors_view() =~= old(self).errors_view() + optional(
                None::<LoxErrorView>,
            ));
        }
    }

    /// Reports `error` for the lexeme being read and leaves it behind.
    fn reject(&mut self, error: LoxError)
        requires
            old(self).reading(old(self).reader.start_index()),
        ensures
            final(self).stepped(
                old(self),
                Step { next: old(self).reader.index(), token: None, error: Some(error@) },
            ),
    {
        self.add_error(error);
        self.reader.sync();
        assert(self.tokens_view() =~= old(self).tokens_view() + optional(None::<TokenView>));
        assert(self.errors_view() =~= old(self).errors_view() + optional(Some(error@)));
    }

    /// Leaves the lexeme being read behind without a token.
    fn discard(&mut self)
        requires
            old(self).reading(old(self).reader.start_index()),
        ensures
            final(self).stepped(old(self), skip_to(old(self).reader.index())),
    {
        self.reader.sync();
        assert(self.tokens_view() =~= old(self).tokens_view() + optional(None::<TokenView>));
        assert(self.errors_view() =~= old(self).errors_view() + optional(None::<LoxErrorView>));
    }
    /// Whether the next unread character is `c`.
    fn next_is(&self, c: char) -> (found: bool)
        requires
            self.reader.wf(),
        ensures
            found == (self.reader.index() < self.reader.text().len()
                && self.reader.text()[self.reader.index()] == c),
    {
        match self.reader.peek() {
            Some(next) => next == c,
            None => false,
        }
    }

    #[allow(non_snake_case)]
    fn handleMultiCharToken(&mut self, token: MultiCharToken)
        requires
            old(self).reading(old(self).reader.index() - 1),
            0 < old(self).reader.index(),
            token is String ==> old(self).text()[old(self).reader.index() - 1] == '"',
        ensures
            final(self).stepped(
                old(self),
                match token {
                    MultiCharToken::IfEqualElse(with_equal, alone) => operator_step(
                        old(self).text(),
                        old(self).reader.index() - 1,
                        with_equal,
                        alone,
                    ),
                    MultiCharToken::String => string_step(
                        old(self).text(),
                        old(self).reader.index() - 1,
                    ),
                    MultiCharToken::Number => number_step(
                        old(self).text(),
                        old(self).reader.index() - 1,
                    ),
                    MultiCharToken::Ident => identifier_step(
                        old(self).text(),
                        old(self).table(),
                        old(self).reader.index() - 1,
                    ),
                    MultiCharToken::Slash => slash_step(
                        old(self).text(),
                        old(self).reader.index() - 1,
                    ),
                },
            ),
    {
        match token {
            MultiCharToken::IfEqualElse(if_token, else_token) => {
                let kind = if self.next_is('=') {
                    self.reader.advance();
                    if_token
                } else {
                    else_token
                };
                self.add_token(kind);
            },
            MultiCharToken::String => self.scan_string(),
            MultiCharToken::Number => self.scan_number(),
            MultiCharToken::Ident => self.scan_identifier(),
            MultiCharToken::Slash => self.handle_slash(),
        }
    }

    fn handle_slash(&mut self)
        requires
            old(self).reading(old(self).reader.index() - 1),
            0 < old(self).reader.index(),
        ensures
            final(self).stepped(
                old(self),
                slash_step(old(self).text(), old(self).reader.index() - 1),
            ),
    {
        if self.next_is('/') {
            self.reader.advance_while(is_comment_char);
            proof {
                lemma_run_end_is(
                    self.text(),
                    old(self).reader.index(),
                    self.reader.index(),
                    comment_chars(),
                );
            }
            self.discard();
        } else {
            self.add_token(TokenKind::Slash);
        }
    }

    fn scan_string(&mut self)
        requires
            old(self).reading(old(self).reader.index() - 1),
            0 < old(self).reader.index(),
            old(self).text()[old(self).reader.index() - 1] == '"',
        ensures
            final(self).stepped(
                old(self),
                string_step(old(self).text(), old(self).reader.index() - 1),
            ),
    {
        let ghost src = self.text();
        let ghost open = self.reader.index() - 1;
        let line = self.reader.line_number();
        let start = self.reader.start_offset();
        proof {
            self.reader.lemma_wf();
            lemma_line_step(src, open);
            lemma_byte_offset_step(src, open);
        }
        self.reader.advance_while(is_string_char);
        let ghost close = self.reader.index();
        proof {
            lemma_run_end_is(src, open + 1, close, string_chars());
        }
        match self.reader.advance() {
            Some(_) => {
                proof {
                    self.reader.lemma_wf();
                    lemma_byte_offset_step(src, close);
                    lemma_byte_offset_monotone(src, open + 1, close);
                }
                let text = slice(
                    self.source,
                    start + 1,
                    self.reader.cursor_offset() - 1,
                    Ghost(open + 1),
                    Ghost(close),
                );
                self.add_token_with_literal(TokenKind::String, TokenLiteral::String(text));
            },
            None => {
                self.reject(LoxError::new(line, unterminated_text(line)));
            },
        }
    }

    fn scan_number(&mut self)
        requires
            old(self).reading(old(self).reader.index() - 1),
            0 < old(self).reader.index(),
        ensures
            final(self).stepped(
                old(self),
                number_step(old(self).text(), old(self).reader.index() - 1),
            ),
    {
        let ghost src = self.text();
        let ghost first = self.reader.index() - 1;
        self.reader.advance_while(is_digit_char);
        let ghost whole = self.reader.index();
        proof {
            lemma_run_end_is(src, first + 1, whole, digit_chars());
        }
        if self.next_is('.') {
            self.reader.advance();
            self.reader.advance_while(is_digit_char);
            proof {
                lemma_run_end_is(src, whole + 1, self.reader.index(), digit_chars());
            }
        }
        proof {
            self.reader.lemma_wf();
        }
        let raw = slice(
            self.source,
            self.reader.start_offset(),
            self.reader.cursor_offset(),
            Ghost(first),
            Ghost(self.reader.index()),
        );
        self.add_token_with_literal(TokenKind::Number, TokenLiteral::Number(raw));
    }

    fn scan_identifier(&mut self)
        requires
            old(self).reading(old(self).reader.index() - 1),
            0 < old(self).reader.index(),
        ensures
            final(self).stepped(
                old(self),
                identifier_step(old(self).text(), old(self).table(), old(self).reader.index() - 1),
            ),
    {
        let ghost src = self.text();
        let ghost first = self.reader.index() - 1;
        self.reader.advance_while(is_word_char);
        proof {
            lemma_run_end_is(src, first + 1, self.reader.index(), word_chars());
            self.reader.lemma_wf();
        }
        let word = slice(
            self.source,
            self.reader.start_offset(),
            self.reader.cursor_offset(),
            Ghost(first),
            Ghost(self.reader.index()),
        );
        let kind = match self.keywords.get(word) {
            Some(kind) => *kind,
            None => TokenKind::Identifier,
        };
        self.add_token(kind);
    }
    /// Reads the rest of the text: every lexeme from the current position on gives its token
    /// or its error, and the end-of-input token comes last.
    pub fn scan_tokens(&mut self)
        requires
            old(self).wf(),
        ensures
            final(self).wf(),
            final(self).text() == old(self).text(),
            final(self).table() == old(self).table(),
            final(self).index() == final(self).text().len(),
            final(self).tokens_view().len() > 0,
            final(self).tokens_view().last().kind == TokenKind::Eof,
            final(self).tokens_view() == old(self).tokens_view() + lex_from(
                old(self).text(),
                old(self).table(),
                old(self).index(),
            ).tokens,
            final(self).errors_view() == old(self).errors_view() + lex_from(
                old(self).text(),
                old(self).table(),
                old(self).index(),
            ).errors,
    {
        let ghost src = self.text();
        let ghost table = self.table();
        let ghost all = lex_from(src, table, self.index());
        proof {
            self.reader.lemma_wf();
        }
        loop
            invariant
                self.wf(),
                self.text() == src,
                self.table() == table,
                0 <= self.index() <= src.len(),
                old(self).tokens_view() + all.tokens == self.tokens_view() + lex_from(
                    src,
                    table,
                    self.index(),
                ).tokens,
                old(self).errors_view() + all.errors == self.errors_view() + lex_from(
                    src,
                    table,
                    self.index(),
                ).errors,
            ensures
                self.index() == src.len(),
            decreases src.len() - self.index(),
        {
            let ghost before = *self;
            let ghost i = self.index();
            let c = match self.reader.advance() {
                Some(c) => c,
                None => {
                    break ;
                },
            };
            proof {
                lemma_step_advances(src, table, i);
                lemma_line_step(src, i);
            }
            let punctuation = punctuation_kind(c);
            if c == ' ' || c == '\r' || c == '\t' || c == '\n' {
                self.discard();
            } else if punctuation.is_some() {
                self.add_token(punctuation.unwrap());
            } else if c == '/' {
                self.handleMultiCharToken(MultiCharToken::Slash);
            } else if c == '"' {
                self.handleMultiCharToken(MultiCharToken::String);
            } else if is_digit_char(c) {
                self.handleMultiCharToken(MultiCharToken::Number);
            } else if is_alpha_char(c) {
                self.handleMultiCharToken(MultiCharToken::Ident);
            } else if c == '!' {
                self.handleMultiCharToken(
                    MultiCharToken::IfEqualElse(TokenKind::BangEqual, TokenKind::Bang),
                );
            } else if c == '=' {
                self.handleMultiCharToken(
                    MultiCharToken::IfEqualElse(TokenKind::EqualEqual, TokenKind::Equal),
                );
            } else if c == '<' {
                self.handleMultiCharToken(
                    MultiCharToken::IfEqualElse(TokenKind::LessEqual, TokenKind::Less),
                );
            } else if c == '>' {
                self.handleMultiCharToken(
                    MultiCharToken::IfEqualElse(TokenKind::GreaterEqual, TokenKind::Greater),
                );
            } else {
                proof {
                    self.reader.lemma_wf();
                }
                let found = slice(
                    self.source,
                    self.reader.start_offset(),
                    self.reader.cursor_offset(),
                    Ghost(i),
                    Ghost(i + 1),
                );
                let line = self.reader.line_number();
                self.reject(LoxError::new(line, unexpected_text(line, found)));
            }
            proof {
                let step = scan_step(src, table, i);
                let rest = lex_from(src, table, step.next);
                assert(self.stepped(&before, step));
                assert(self.tokens_view() + rest.tokens =~= before.tokens_view() + (optional(
                    step.token,
                ) + rest.tokens));
                assert(self.errors_view() + rest.errors =~= before.errors_view() + (optional(
                    step.error,
                ) + rest.errors));
            }
        }
        proof {
            self.reader.lemma_wf();
        }
        self.add_token(TokenKind::Eof);
        proof {
            assert(self.tokens_view() =~= old(self).tokens_view() + all.tokens);
            assert(self.errors_view() =~= old(self).errors_view() + all.errors);
        }
    }

    /// A copy of the errors met so far.
    pub fn errors(&self) -> (errors: Vec<LoxError>)
        ensures
            error_views(errors@) == self.errors_view(),
    {
        copy_errors(&self.errors)
    }

    /// Gives up the lexer for its tokens and its errors.
    pub fn into_parts(self) -> (parts: (Vec<Token<'de>>, Vec<LoxError>))
        ensures
            token_views(parts.0@) == self.tokens_view(),
            error_views(parts.1@) == self.errors_view(),
    {
        (self.tokens, self.errors)
    }
}

} // verus!
