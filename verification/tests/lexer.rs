use rox::lexer::reader::Reader;
use rox::lexer::token::{Token, TokenLiteral};
use rox::lexer::token_kind::TokenKind;
use rox::lexer::Lexer;

#[test]
fn test_scan_tokens() {
    let mut lexer = Lexer::new("(){},.-+;*!=>=<===/=><!//");
    lexer.scan_tokens();
    let tokens = lexer.tokens;
    assert_eq!(tokens.len(), 20);
    assert_eq!(tokens[0].kind, TokenKind::LeftParen);
    assert_eq!(tokens[1].kind, TokenKind::RightParen);
    assert_eq!(tokens[2].kind, TokenKind::LeftBrace);
    assert_eq!(tokens[3].kind, TokenKind::RightBrace);
    assert_eq!(tokens[4].kind, TokenKind::Comma);
    assert_eq!(tokens[5].kind, TokenKind::Dot);
    assert_eq!(tokens[6].kind, TokenKind::Minus);
    assert_eq!(tokens[7].kind, TokenKind::Plus);
    assert_eq!(tokens[8].kind, TokenKind::Semicolon);
    assert_eq!(tokens[9].kind, TokenKind::Star);
    assert_eq!(tokens[10].kind, TokenKind::BangEqual);
    assert_eq!(tokens[11].kind, TokenKind::GreaterEqual);
    assert_eq!(tokens[12].kind, TokenKind::LessEqual);
    assert_eq!(tokens[13].kind, TokenKind::EqualEqual);
    assert_eq!(tokens[14].kind, TokenKind::Slash);
    assert_eq!(tokens[15].kind, TokenKind::Equal);
    assert_eq!(tokens[16].kind, TokenKind::Greater);
    assert_eq!(tokens[17].kind, TokenKind::Less);
    assert_eq!(tokens[18].kind, TokenKind::Bang);
    assert_eq!(tokens[19].kind, TokenKind::Eof);
}

#[test]
fn test_scan_tokens_with_string() {
    let mut lexer = Lexer::new("\"Hello, World!\";");
    lexer.scan_tokens();
    let tokens = lexer.tokens;
    println!("{tokens:?}");
    assert_eq!(tokens.len(), 3);
    assert_eq!(tokens[0].kind, TokenKind::String);
    assert_eq!(tokens[0].lexeme, "\"Hello, World!\"");
    assert_eq!(
        tokens[0].literal,
        Some(TokenLiteral::String("Hello, World!"))
    );
}

#[test]
fn test_scan_arbitrary_source() {
    let source = "-2 true false nil \"Hello\"";
    let mut lexer = Lexer::new(source);
    lexer.scan_tokens();
    let tokens = lexer.tokens;

    assert_eq!(tokens.len(), 7);
    assert_eq!(tokens[0].kind, TokenKind::Minus);
    assert_eq!(tokens[1].kind, TokenKind::Number);
    assert_eq!(tokens[2].kind, TokenKind::True);
    assert_eq!(tokens[3].kind, TokenKind::False);
    assert_eq!(tokens[4].kind, TokenKind::Nil);
    assert_eq!(tokens[5].kind, TokenKind::String);
    assert_eq!(tokens[5].literal, Some(TokenLiteral::String("Hello")));
    assert_eq!(tokens[6].kind, TokenKind::Eof);
}

#[test]
fn test_lexer_errors() {
    let source = "let x = 10; # $ \"I am an unterminated string";
    let mut lexer = Lexer::new(source);
    lexer.scan_tokens();

    assert_eq!(lexer.has_errors(), true);
}

#[test]
fn test_reader_advance() {
    let source = "let x = 10;";
    let mut reader = Reader::new(source);

    assert_eq!(reader.advance(), Some('l'));
    assert_eq!(reader.advance(), Some('e'));
    assert_eq!(reader.advance(), Some('t'));
    assert_eq!(reader.advance(), Some(' '));
    assert_eq!(reader.advance(), Some('x'));
    assert_eq!(reader.advance(), Some(' '));
    assert_eq!(reader.advance(), Some('='));
    assert_eq!(reader.advance(), Some(' '));
    assert_eq!(reader.advance(), Some('1'));
    assert_eq!(reader.advance(), Some('0'));
    assert_eq!(reader.advance(), Some(';'));
    assert_eq!(reader.advance(), None);
}

#[test]
fn test_reader_read_while() {
    let source = "123 456";
    let mut reader = Reader::new(source);
    reader.advance_while(|c| c.is_numeric());
    assert_eq!(reader.cursor, 3);
}

#[test]
fn test_token_display() {
    let token = Token::new(TokenKind::Identifier, 1, 0, 3);
    assert_eq!(token.to_string(), "Identifier 1 0 3");
}
