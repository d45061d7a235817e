//! The lexical rules, as functions on the characters of a text.
//!
//! A text is read lexeme by lexeme. `scan_step` says what the lexeme at an index gives, and
//! `lex_from` strings the steps together. Positions in these functions are indices of
//! characters; the offsets that tokens carry are offsets of bytes.

use vstd::prelude::*;
use crate::lox_error::LoxErrorView;
use crate::text::{byte_len, byte_offset, decimal, lemma_byte_offset_monotone};
use super::keyword::lookup;
use super::reader::newlines;
use super::token::{LiteralView, TokenView};
use super::token_kind::TokenKind;

verus! {

pub open spec fn is_digit(c: char) -> bool {
    '0' <= c <= '9'
}

pub open spec fn is_alpha(c: char) -> bool {
    ('a' <= c <= 'z') || ('A' <= c <= 'Z') || c == '_'
}

pub open spec fn is_alphanumeric(c: char) -> bool {
    is_alpha(c) || is_digit(c)
}

pub open spec fn is_whitespace(c: char) -> bool {
    c == ' ' || c == '\r' || c == '\t' || c == '\n'
}

/// The characters of a comment: all but the line feed.
pub open spec fn comment_chars() -> spec_fn(char) -> bool {
    |c: char| c != '\n'
}

/// The characters inside a string: all but the quote.
pub open spec fn string_chars() -> spec_fn(char) -> bool {
    |c: char| c != '"'
}

/// The characters of a run of digits.
pub open spec fn digit_chars() -> spec_fn(char) -> bool {
    |c: char| is_digit(c)
}

/// The characters of a word after its first.
pub open spec fn word_chars() -> spec_fn(char) -> bool {
    |c: char| is_alphanumeric(c)
}

/// The index at which the run of characters that satisfy `p`, begun at `i`, ends:
/// the first index from `i` on that holds a character which `p` refuses, or the text's length.
pub open spec fn run_end(src: Seq<char>, i: int, p: spec_fn(char) -> bool) -> int
    decreases src.len() - i,
{
    if 0 <= i < src.len() && p(src[i]) {
        run_end(src, i + 1, p)
    } else {
        i
    }
}

/// What `run_end` finds: the end of the run, the run itself, and what stops it.
pub proof fn lemma_run_end(src: Seq<char>, i: int, p: spec_fn(char) -> bool)
    requires
        0 <= i <= src.len(),
    ensures
        i <= run_end(src, i, p) <= src.len(),
        forall|k: int| i <= k < run_end(src, i, p) ==> p(#[trigger] src[k]),
        run_end(src, i, p) < src.len() ==> !p(src[run_end(src, i, p)]),
    decreases src.len() - i,
{
    if i < src.len() && p(src[i]) {
        lemma_run_end(src, i + 1, p);
    }
}

/// A run that is known to hold from `i` to `j` and to stop at `j` ends at `j`.
pub proof fn lemma_run_end_is(src: Seq<char>, i: int, j: int, p: spec_fn(char) -> bool)
    requires
        0 <= i <= j <= src.len(),
        forall|k: int| i <= k < j ==> p(#[trigger] src[k]),
        j < src.len() ==> !p(src[j]),
    ensures
        run_end(src, i, p) == j,
    decreases j - i,
{
    if i < j {
        lemma_run_end_is(src, i + 1, j, p);
    }
}

/// The line, counted from one, on which the character of index `i` stands.
pub open spec fn line_of(src: Seq<char>, i: int) -> usize {
    (1 + newlines(src.take(i))) as usize
}

/// The token of kind `kind` that the characters `from..to` of `src` make.
pub open spec fn token_at(
    src: Seq<char>,
    kind: TokenKind,
    from: int,
    to: int,
    literal: Option<LiteralView>,
) -> TokenView {
    TokenView {
        kind,
        lexeme: src.subrange(from, to),
        literal,
        line: line_of(src, to),
        from: byte_offset(src, from) as usize,
        to: byte_offset(src, to) as usize,
    }
}

pub open spec fn unterminated_message(line: usize) -> Seq<char> {
    "[Line "@ + decimal(line as nat) + "]: Unterminated string"@
}

pub open spec fn unexpected_message(line: usize, found: Seq<char>) -> Seq<char> {
    "[Line "@ + decimal(line as nat) + "]: Unexpected character: '"@ + found + "'"@
}

/// What reading one lexeme does: where the next one begins, and the token or the error that
/// the lexeme gave, if any.
pub struct Step {
    pub next: int,
    pub token: Option<TokenView>,
    pub error: Option<LoxErrorView>,
}

pub open spec fn skip_to(next: int) -> Step {
    Step { next, token: None, error: None }
}

pub open spec fn emit(src: Seq<char>, kind: TokenKind, from: int, to: int) -> Step {
    Step { next: to, token: Some(token_at(src, kind, from, to, None)), error: None }
}

/// An operator of one character that a following `=` makes into another.
pub open spec fn operator_step(src: Seq<char>, i: int, with_equal: TokenKind, alone: TokenKind) -> Step {
    if i + 1 < src.len() && src[i + 1] == '=' {
        emit(src, with_equal, i, i + 2)
    } else {
        emit(src, alone, i, i + 1)
    }
}

/// A slash begins a comment where another slash follows it; the comment runs to the end of
/// the line and gives no token.
pub open spec fn slash_step(src: Seq<char>, i: int) -> Step {
    if i + 1 < src.len() && src[i + 1] == '/' {
        skip_to(run_end(src, i + 1, comment_chars()))
    } else {
        emit(src, TokenKind::Slash, i, i + 1)
    }
}

/// A string runs from its opening quote to the next quote; its value is the text between them.
/// Without a closing quote the rest of the text is consumed and reported on the string's
/// first line.
pub open spec fn string_step(src: Seq<char>, i: int) -> Step {
    let close = run_end(src, i + 1, string_chars());
    if close < src.len() {
        Step {
            next: close + 1,
            token: Some(
                token_at(
                    src,
                    TokenKind::String,
                    i,
                    close + 1,
                    Some(LiteralView::String(src.subrange(i + 1, close))),
                ),
            ),
            error: None,
        }
    } else {
        Step {
            next: src.len() as int,
            token: None,
            error: Some(
                LoxErrorView {
                    message: unterminated_message(line_of(src, i)),
                    line: line_of(src, i),
                },
            ),
        }
    }
}

/// Where the numeral that begins at `i` ends: after a run of digits and, where a point
/// follows it, after the point and the digits behind it.
pub open spec fn number_end(src: Seq<char>, i: int) -> int {
    let whole = run_end(src, i + 1, digit_chars());
    if whole < src.len() && src[whole] == '.' {
        run_end(src, whole + 1, digit_chars())
    } else {
        whole
    }
}

pub open spec fn number_step(src: Seq<char>, i: int) -> Step {
    let end = number_end(src, i);
    Step {
        next: end,
        token: Some(
            token_at(
                src,
                TokenKind::Number,
                i,
                end,
                Some(LiteralView::Number(src.subrange(i, end))),
            ),
        ),
        error: None,
    }
}

/// A word is a keyword of the kind that the table gives it, or else an identifier.
pub open spec fn identifier_step(src: Seq<char>, keywords: Map<Seq<char>, TokenKind>, i: int) -> Step {
    let end = run_end(src, i + 1, word_chars());
    let kind = match lookup(keywords, src.subrange(i, end)) {
        Some(kind) => kind,
        None => TokenKind::Identifier,
    };
    emit(src, kind, i, end)
}

pub open spec fn unexpected_step(src: Seq<char>, i: int) -> Step {
    Step {
        next: i + 1,
        token: None,
        error: Some(
            LoxErrorView {
                message: unexpected_message(line_of(src, i), src.subrange(i, i + 1)),
                line: line_of(src, i),
            },
        ),
    }
}

/// The kind of the punctuation mark `c`, where `c` is one that stands alone.
pub open spec fn punctuation(c: char) -> Option<TokenKind> {
    if c == '(' {
        Some(TokenKind::LeftParen)
    } else if c == ')' {
        Some(TokenKind::RightParen)
    } else if c == '{' {
        Some(TokenKind::LeftBrace)
    } else if c == '}' {
        Some(TokenKind::RightBrace)
    } else if c == ',' {
        Some(TokenKind::Comma)
    } else if c == '.' {
        Some(TokenKind::Dot)
    } else if c == '-' {
        Some(TokenKind::Minus)
    } else if c == '+' {
        Some(TokenKind::Plus)
    } else if c == ';' {
        Some(TokenKind::Semicolon)
    } else if c == '*' {
        Some(TokenKind::Star)
    } else if c == '?' {
        Some(TokenKind::Question)
    } else if c == ':' {
        Some(TokenKind::Colon)
    } else {
        None
    }
}

/// What the lexeme that begins at index `i` of `src` gives.
pub open spec fn scan_step(src: Seq<char>, keywords: Map<Seq<char>, TokenKind>, i: int) -> Step {
    let c = src[i];
    if is_whitespace(c) {
        skip_to(i + 1)
    } else if punctuation(c) is Some {
        emit(src, punctuation(c)->0, i, i + 1)
    } else if c == '/' {
        slash_step(src, i)
    } else if c == '"' {
        string_step(src, i)
    } else if is_digit(c) {
        number_step(src, i)
    } else if is_alpha(c) {
        identifier_step(src, keywords, i)
    } else if c == '!' {
        operator_step(src, i, TokenKind::BangEqual, TokenKind::Bang)
    } else if c == '=' {
        operator_step(src, i, TokenKind::EqualEqual, TokenKind::Equal)
    } else if c == '<' {
        operator_step(src, i, TokenKind::LessEqual, TokenKind::Less)
    } else if c == '>' {
        operator_step(src, i, TokenKind::GreaterEqual, TokenKind::Greater)
    } else {
        unexpected_step(src, i)
    }
}

/// Every lexeme takes at least one character and ends inside the text.
pub proof fn lemma_step_advances(src: Seq<char>, keywords: Map<Seq<char>, TokenKind>, i: int)
    requires
        0 <= i < src.len(),
    ensures
        i < scan_step(src, keywords, i).next <= src.len(),
{
    lemma_run_end(src, i + 1, comment_chars());
    lemma_run_end(src, i + 1, string_chars());
    lemma_run_end(src, i + 1, digit_chars());
    lemma_run_end(src, i + 1, word_chars());
    let whole = run_end(src, i + 1, digit_chars());
    if whole < src.len() {
        lemma_run_end(src, whole + 1, digit_chars());
    }
}

/// The tokens and the errors that a text gives.
pub struct LexOutput {
    pub tokens: Seq<TokenView>,
    pub errors: Seq<LoxErrorView>,
}

/// The token that ends every token sequence.
pub open spec fn eof_token(src: Seq<char>) -> TokenView {
    token_at(src, TokenKind::Eof, src.len() as int, src.len() as int, None)
}

pub open spec fn optional<T>(item: Option<T>) -> Seq<T> {
    match item {
        Some(item) => seq![item],
        None => Seq::empty(),
    }
}

/// The tokens and errors that `src` gives from index `i` on: those of each lexeme in turn,
/// and the end-of-input token behind the last.
pub open spec fn lex_from(src: Seq<char>, keywords: Map<Seq<char>, TokenKind>, i: int) -> LexOutput
    decreases src.len() - i,
{
    if 0 <= i < src.len() {
        let step = scan_step(src, keywords, i);
        proof {
            lemma_step_advances(src, keywords, i);
        }
        let rest = lex_from(src, keywords, step.next);
        LexOutput {
            tokens: optional(step.token) + rest.tokens,
            errors: optional(step.error) + rest.errors,
        }
    } else {
        LexOutput { tokens: seq![eof_token(src)], errors: Seq::empty() }
    }
}

/// The tokens and errors of a whole text.
pub open spec fn lex(src: Seq<char>, keywords: Map<Seq<char>, TokenKind>) -> LexOutput {
    lex_from(src, keywords, 0)
}

/// A token sequence is in order: it ends with the end-of-input token, every token before
/// that one covers at least one byte, and no token begins before the one in front of it ends.
#[verifier::opaque]
pub open spec fn in_order(tokens: Seq<TokenView>) -> bool {
    &&& tokens.len() > 0
    &&& tokens.last().kind == TokenKind::Eof
    &&& forall|k: int| 0 <= k < tokens.len() ==> (#[trigger] tokens[k]).from <= tokens[k].to
    &&& forall|k: int| 0 <= k < tokens.len() - 1 ==> (#[trigger] tokens[k]).from < tokens[k].to
    &&& forall|k: int, l: int|
        0 <= k < l < tokens.len() ==> (#[trigger] tokens[k]).to <= (#[trigger] tokens[l]).from
}

/// The tokens of a text lie inside it, one after the other, and end with the end-of-input
/// token, which begins and ends at the end of the text.
pub proof fn lemma_lex_from_in_order(src: Seq<char>, keywords: Map<Seq<char>, TokenKind>, i: int)
    requires
        0 <= i <= src.len(),
        byte_len(src) <= usize::MAX,
    ensures
        in_order(lex_from(src, keywords, i).tokens),
        lex_from(src, keywords, i).tokens.last() == eof_token(src),
        forall|k: int|
            0 <= k < lex_from(src, keywords, i).tokens.len() ==> byte_offset(src, i) <= (
            #[trigger] lex_from(src, keywords, i).tokens[k]).from && lex_from(
                src,
                keywords,
                i,
            ).tokens[k].to <= byte_len(src),
    decreases src.len() - i,
{
    reveal(in_order);
    let tokens = lex_from(src, keywords, i).tokens;
    lemma_byte_offset_monotone(src, i, src.len() as int);
    if i < src.len() {
        let step = scan_step(src, keywords, i);
        lemma_step_advances(src, keywords, i);
        lemma_step_token(src, keywords, i);
        lemma_lex_from_in_order(src, keywords, step.next);
        lemma_byte_offset_monotone(src, i, step.next);
        lemma_byte_offset_monotone(src, step.next, src.len() as int);
        let rest = lex_from(src, keywords, step.next).tokens;
        let head = optional(step.token);
        assert(tokens == head + rest);
        assert forall|k: int| 0 <= k < tokens.len() implies byte_offset(src, i) <= (
        #[trigger] tokens[k]).from && tokens[k].from <= tokens[k].to && tokens[k].to <= byte_len(
            src,
        ) && (k < tokens.len() - 1 ==> tokens[k].from < tokens[k].to) by {
            if k >= head.len() {
                assert(tokens[k] == rest[k - head.len()]);
            }
        }
        assert forall|k: int, l: int| 0 <= k < l < tokens.len() implies (#[trigger] tokens[k]).to
            <= (#[trigger] tokens[l]).from by {
            assert(tokens[l] == rest[l - head.len()]);
            if k >= head.len() {
                assert(tokens[k] == rest[k - head.len()]);
            }
        }
        assert(tokens.last() == rest.last());
    } else {
        assert(src.take(src.len() as int) =~= src);
    }
}

/// The token of a lexeme covers the lexeme.
pub proof fn lemma_step_token(src: Seq<char>, keywords: Map<Seq<char>, TokenKind>, i: int)
    requires
        0 <= i < src.len(),
        byte_len(src) <= usize::MAX,
    ensures
        scan_step(src, keywords, i).token matches Some(t) ==> t.from == byte_offset(src, i)
            && t.to == byte_offset(src, scan_step(src, keywords, i).next),
{
    lemma_step_advances(src, keywords, i);
    let next = scan_step(src, keywords, i).next;
    lemma_byte_offset_monotone(src, i, next);
    lemma_byte_offset_monotone(src, next, src.len() as int);
}

/// What being in order says of two tokens, the first of which does not come behind the second.
pub proof fn lemma_in_order(tokens: Seq<TokenView>, i: int, j: int)
    requires
        in_order(tokens),
        0 <= i <= j < tokens.len(),
    ensures
        tokens[i].from <= tokens[i].to,
        tokens[i].from <= tokens[j].from,
        tokens[i].to <= tokens[j].to,
        i < j ==> tokens[i].to <= tokens[j].from,
        i < tokens.len() - 1 ==> tokens[i].from < tokens[i].to,
        tokens.last().kind == TokenKind::Eof,
{
    reveal(in_order);
}

/// A run of tokens `i..=j` inside the run `pos..next` lies inside the bytes that the outer
/// run covers, and the outer run covers at least one byte.
pub proof fn lemma_inside(tokens: Seq<TokenView>, pos: int, next: int, i: int, j: int)
    requires
        in_order(tokens),
        0 <= pos <= i <= j < next < tokens.len(),
    ensures
        tokens[pos].from <= tokens[i].from,
        tokens[j].to <= tokens[next - 1].to,
        tokens[pos].from < tokens[next - 1].to,
        tokens[i].from < tokens[j].to,
        tokens[i].from < tokens[i].to,
        tokens[j].from < tokens[j].to,
{
    lemma_in_order(tokens, pos, i);
    lemma_in_order(tokens, i, j);
    lemma_in_order(tokens, j, next - 1);
    lemma_in_order(tokens, pos, next - 1);
}

/// The payload of a string token is its lexeme without the two quotes, and the payload of a
/// number token is its lexeme as it stands.
pub proof fn lemma_literal_payload(src: Seq<char>, i: int)
    requires
        0 <= i < src.len(),
    ensures
        src[i] == '"' ==> (string_step(src, i).token matches Some(t) ==> t.kind
            == TokenKind::String && t.lexeme.len() >= 2 && t.lexeme.first() == '"'
            && t.lexeme.last() == '"' && t.literal == Some(
            LiteralView::String(t.lexeme.subrange(1, t.lexeme.len() - 1)),
        )),
        number_step(src, i).token matches Some(t) && t.kind == TokenKind::Number && t.literal
            == Some(LiteralView::Number(t.lexeme)),
{
    lemma_run_end(src, i + 1, string_chars());
    let close = run_end(src, i + 1, string_chars());
    if src[i] == '"' && close < src.len() {
        let lexeme = src.subrange(i, close + 1);
        assert(lexeme.subrange(1, lexeme.len() - 1) =~= src.subrange(i + 1, close));
    }
}

} // verus!
