use rox::lexer::reader::Reader;
use rox::lexer::token::{Token, TokenLiteral};
use rox::lexer::token_kind::TokenKind;
use rox::lexer::Lexer;
use rox::lox_error::LoxError;

fn lex(source: &str) -> (Vec<Token<'_>>, Vec<LoxError>) {
    let mut lexer = Lexer::new(source);
    lexer.scan_tokens();
    lexer.into_parts()
}

fn kinds(tokens: &[Token<'_>]) -> Vec<TokenKind> {
    tokens.iter().map(|t| t.kind).collect()
}

#[test]
fn an_expression_that_breaks_off_is_still_valid_tokens() {
    let (tokens, errors) = lex("10 + ");
    assert!(errors.is_empty());
    assert_eq!(
        kinds(&tokens),
        vec![TokenKind::Number, TokenKind::Plus, TokenKind::Eof]
    );
}

#[test]
fn a_string_without_closing_quote_is_one_error_and_no_token() {
    let (tokens, errors) = lex("\"abc");
    assert_eq!(errors.len(), 1);
    assert!(errors[0].message.contains("Unterminated string"));
    assert_eq!(errors[0].message, "[Line 1]: Unterminated string");
    assert_eq!(errors[0].line, 1);
    assert_eq!(kinds(&tokens), vec![TokenKind::Eof]);
}

#[test]
fn an_unterminated_string_is_reported_on_its_first_line() {
    let (tokens, errors) = lex("a\n\n\"xy\nz\n");
    assert_eq!(errors.len(), 1);
    assert_eq!(errors[0].line, 3);
    assert_eq!(errors[0].message, "[Line 3]: Unterminated string");
    assert_eq!(kinds(&tokens), vec![TokenKind::Identifier, TokenKind::Eof]);
    assert_eq!(tokens[1].line, 5);
}

#[test]
fn a_number_keeps_its_numeral_and_a_string_loses_its_quotes() {
    let (tokens, errors) = lex("3.14");
    assert!(errors.is_empty());
    assert_eq!(tokens[0].kind, TokenKind::Number);
    assert_eq!(tokens[0].lexeme, "3.14");
    assert_eq!(tokens[0].literal, Some(TokenLiteral::Number("3.14")));
    let Some(TokenLiteral::Number(raw)) = tokens[0].literal else {
        panic!("expected a number");
    };
    assert_eq!(raw.parse::<f64>().unwrap(), 3.14);

    let (tokens, errors) = lex("\"hi\"");
    assert!(errors.is_empty());
    assert_eq!(tokens[0].kind, TokenKind::String);
    assert_eq!(tokens[0].literal, Some(TokenLiteral::String("hi")));
    assert_eq!((tokens[0].from, tokens[0].to), (0, 4));
}

#[test]
fn numerals_take_one_point_at_most() {
    let (tokens, _) = lex("1.2.3");
    assert_eq!(
        kinds(&tokens),
        vec![TokenKind::Number, TokenKind::Dot, TokenKind::Number, TokenKind::Eof]
    );
    assert_eq!(tokens[0].lexeme, "1.2");
    assert_eq!(tokens[2].lexeme, "3");

    let (tokens, _) = lex("7. x");
    assert_eq!(
        kinds(&tokens),
        vec![TokenKind::Number, TokenKind::Identifier, TokenKind::Eof]
    );
    assert_eq!(tokens[0].lexeme, "7.");

    let (tokens, _) = lex(".5");
    assert_eq!(
        kinds(&tokens),
        vec![TokenKind::Dot, TokenKind::Number, TokenKind::Eof]
    );
}

#[test]
fn unexpected_characters_are_each_reported_and_scanning_goes_on() {
    let (tokens, errors) = lex("let x = 10; # $ \"I am an unterminated string");
    assert_eq!(errors.len(), 3);
    assert_eq!(errors[0].message, "[Line 1]: Unexpected character: '#'");
    assert_eq!(errors[1].message, "[Line 1]: Unexpected character: '$'");
    assert_eq!(errors[2].message, "[Line 1]: Unterminated string");
    assert_eq!(
        kinds(&tokens),
        vec![
            TokenKind::Identifier,
            TokenKind::Identifier,
            TokenKind::Equal,
            TokenKind::Number,
            TokenKind::Semicolon,
            TokenKind::Eof
        ]
    );
    assert_eq!(errors[0].to_string(), "[line 1] Error: [Line 1]: Unexpected character: '#'");
}

#[test]
fn a_token_after_a_rejected_character_starts_afresh() {
    let (tokens, errors) = lex("@ab");
    assert_eq!(errors.len(), 1);
    assert_eq!(tokens[0].kind, TokenKind::Identifier);
    assert_eq!(tokens[0].lexeme, "ab");
    assert_eq!((tokens[0].from, tokens[0].to), (1, 3));
}

#[test]
fn spans_are_byte_offsets() {
    let source = "\"é\" x ü";
    let (tokens, errors) = lex(source);
    assert_eq!(errors.len(), 1);
    assert_eq!(errors[0].message, "[Line 1]: Unexpected character: 'ü'");
    assert_eq!(tokens[0].kind, TokenKind::String);
    assert_eq!(tokens[0].literal, Some(TokenLiteral::String("é")));
    assert_eq!((tokens[0].from, tokens[0].to), (0, 4));
    assert_eq!(tokens[1].lexeme, "x");
    assert_eq!((tokens[1].from, tokens[1].to), (5, 6));
    assert_eq!(tokens[2].kind, TokenKind::Eof);
    assert_eq!((tokens[2].from, tokens[2].to), (source.len(), source.len()));
    for token in &tokens {
        assert_eq!(&source[token.from..token.to], token.lexeme);
    }
}

#[test]
fn lines_are_counted_from_one() {
    let (tokens, _) = lex("a\nb\r\n\nc // note\nd");
    let lines: Vec<usize> = tokens.iter().map(|t| t.line).collect();
    assert_eq!(lines, vec![1, 2, 4, 5, 5]);
    assert_eq!(tokens[4].kind, TokenKind::Eof);
}

#[test]
fn a_comment_gives_no_token() {
    let (tokens, errors) = lex("1 // two three\n/ 4 //");
    assert!(errors.is_empty());
    assert_eq!(
        kinds(&tokens),
        vec![TokenKind::Number, TokenKind::Slash, TokenKind::Number, TokenKind::Eof]
    );
    assert_eq!((tokens[3].from, tokens[3].to), (21, 21));
}

#[test]
fn the_last_token_is_always_the_end_of_input() {
    for source in ["", " ", "\"", "@", "a", "// x", "1.", "!=", "\"a\nb\"", "((("] {
        let (tokens, _) = lex(source);
        assert_eq!(tokens.last().unwrap().kind, TokenKind::Eof, "{:?}", source);
        assert_eq!(tokens.last().unwrap().lexeme, "");
        assert_eq!(tokens.last().unwrap().from, source.len());
    }
}

#[test]
fn words_are_keywords_or_identifiers() {
    let (tokens, _) = lex("var _x1 = nil; fun_ fun classy class");
    assert_eq!(
        kinds(&tokens),
        vec![
            TokenKind::Var,
            TokenKind::Identifier,
            TokenKind::Equal,
            TokenKind::Nil,
            TokenKind::Semicolon,
            TokenKind::Identifier,
            TokenKind::Fun,
            TokenKind::Identifier,
            TokenKind::Class,
            TokenKind::Eof
        ]
    );
    assert_eq!(tokens[1].lexeme, "_x1");
    assert_eq!(tokens[1].literal, None);
}

#[test]
fn question_mark_and_colon_are_tokens() {
    let (tokens, errors) = lex("a ? b : c");
    assert!(errors.is_empty());
    assert_eq!(tokens[1].kind, TokenKind::Question);
    assert_eq!(tokens[3].kind, TokenKind::Colon);
}

#[test]
fn the_errors_of_a_lexer_can_be_copied_out() {
    let mut lexer = Lexer::new("a $ b");
    lexer.scan_tokens();
    let errors = lexer.errors();
    assert_eq!(errors.len(), 1);
    assert_eq!(errors[0].message, "[Line 1]: Unexpected character: '$'");
    assert!(lexer.has_errors());
}

#[test]
fn scanning_again_adds_only_another_end_of_input() {
    let mut lexer = Lexer::new("a b");
    lexer.scan_tokens();
    lexer.scan_tokens();
    assert_eq!(lexer.tokens.len(), 4);
    assert_eq!(lexer.tokens[3].kind, TokenKind::Eof);
    assert!(!lexer.has_errors());
}

#[test]
fn the_reader_tracks_bytes_and_lines() {
    let mut reader = Reader::new("é\nx");
    assert_eq!(reader.peek(), Some('é'));
    assert_eq!((reader.start, reader.cursor, reader.line), (0, 0, 1));
    assert_eq!(reader.advance(), Some('é'));
    assert_eq!(reader.cursor, 2);
    assert_eq!(reader.advance(), Some('\n'));
    assert_eq!((reader.cursor, reader.line), (3, 2));
    reader.sync();
    assert_eq!(reader.start, 3);
    assert_eq!(reader.start_offset(), 3);
    assert_eq!(reader.line_number(), 2);
    assert_eq!(reader.advance(), Some('x'));
    assert_eq!(reader.cursor_offset(), 4);
    assert_eq!(reader.peek(), None);
    assert_eq!(reader.advance(), None);
    assert_eq!(reader.cursor, 4);
    assert_eq!(reader.source(), "é\nx");
}

#[test]
fn advance_while_stops_at_the_end_of_input() {
    let mut reader = Reader::new("aaa");
    reader.advance_while(|c| c == 'a');
    assert_eq!(reader.cursor, 3);
    reader.advance_while(|_| true);
    assert_eq!(reader.cursor, 3);
}

#[test]
fn a_token_is_described_by_kind_line_and_offsets() {
    let token = Token::new(TokenKind::Number, 12, 340, 1005).with_text("7", None);
    assert_eq!(token.to_string(), "Number 12 340 1005");
    assert_eq!(token.lexeme, "7");
    let zero = Token::new(TokenKind::Eof, 0, 0, 0);
    assert_eq!(zero.to_string(), "Eof 0 0 0");
    assert_eq!(zero.lexeme, "");
    assert_eq!(zero.literal, None);
}

#[test]
fn an_error_is_reported_with_its_line() {
    let error = LoxError::new(3, "oops".to_string());
    assert_eq!(error.to_string(), "[line 3] Error: oops");
    assert_eq!(error.line, 3);
    assert_eq!(error.message, "oops");
}
