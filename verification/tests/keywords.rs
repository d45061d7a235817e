use rox::lexer::keyword::{
    apply_overlay, combine_keywords, get_default_keywords, kind_from_name, Keywords,
};
use rox::lexer::token_kind::TokenKind;
use rox::lexer::Lexer;

fn overlay_json() -> String {
    let mut object = serde_json::Map::new();
    object.insert("lekha".to_string(), serde_json::Value::String("Print".to_string()));
    object.insert("sutra".to_string(), serde_json::Value::String("Fun".to_string()));
    object.insert("klass".to_string(), serde_json::Value::String("Class".to_string()));
    serde_json::Value::Object(object).to_string()
}

#[test]
fn test_combine_keywords_with_local_keywords() {
    let local_keywords_json = overlay_json();

    let combined_keywords = combine_keywords(Some(&local_keywords_json));

    assert_eq!(combined_keywords.get("lekha"), Some(&TokenKind::Print));
    assert_eq!(combined_keywords.get("sutra"), Some(&TokenKind::Fun));
    assert_eq!(combined_keywords.get("klass"), Some(&TokenKind::Class));

    assert_eq!(combined_keywords.get("and"), Some(&TokenKind::And));
    assert_eq!(combined_keywords.get("while"), Some(&TokenKind::While));
}

#[test]
fn test_combine_keywords_with_no_local_keywords() {
    let combined_keywords = combine_keywords(None);

    assert_eq!(combined_keywords.get("and"), Some(&TokenKind::And));
    assert_eq!(combined_keywords.get("class"), Some(&TokenKind::Class));
    assert_eq!(combined_keywords.get("while"), Some(&TokenKind::While));
}

#[test]
fn test_combine_keywords_with_invalid_json() {
    let combined_keywords = combine_keywords(Some("invalid_json"));

    assert_eq!(combined_keywords.get("and"), Some(&TokenKind::And));
    assert_eq!(combined_keywords.get("class"), Some(&TokenKind::Class));
}

#[test]
fn default_keywords_are_the_sixteen_of_the_language() {
    let keywords = get_default_keywords();
    let expected = [
        ("and", TokenKind::And),
        ("class", TokenKind::Class),
        ("else", TokenKind::Else),
        ("false", TokenKind::False),
        ("fun", TokenKind::Fun),
        ("for", TokenKind::For),
        ("if", TokenKind::If),
        ("nil", TokenKind::Nil),
        ("or", TokenKind::Or),
        ("print", TokenKind::Print),
        ("return", TokenKind::Return),
        ("super", TokenKind::Super),
        ("this", TokenKind::This),
        ("true", TokenKind::True),
        ("var", TokenKind::Var),
        ("while", TokenKind::While),
    ];
    for (text, kind) in expected {
        assert_eq!(keywords.get(text), Some(&kind));
    }
    assert_eq!(keywords.get("lekha"), None);
    assert_eq!(keywords.get("An"), None);
    assert_eq!(keywords.get(""), None);
}

#[test]
fn a_later_insertion_replaces_an_earlier_one() {
    let mut keywords = Keywords::new();
    assert_eq!(keywords.get("x"), None);
    keywords.insert("x", TokenKind::If);
    keywords.insert("y", TokenKind::Or);
    keywords.insert("x", TokenKind::Nil);
    assert_eq!(keywords.get("x"), Some(&TokenKind::Nil));
    assert_eq!(keywords.get("y"), Some(&TokenKind::Or));
}

#[test]
fn an_overlay_can_replace_a_default_keyword() {
    let keywords = combine_keywords(Some("{\"print\": \"Return\"}"));
    assert_eq!(keywords.get("print"), Some(&TokenKind::Return));
    assert_eq!(keywords.get("return"), Some(&TokenKind::Return));
}

#[test]
fn an_overlay_that_names_no_kind_is_ignored_whole() {
    let keywords = combine_keywords(Some("{\"lekha\": \"Print\", \"sutra\": \"Function\"}"));
    assert_eq!(keywords.get("lekha"), None);
    assert_eq!(keywords.get("sutra"), None);
    assert_eq!(keywords.get("print"), Some(&TokenKind::Print));
}

#[test]
fn an_overlay_whose_values_are_no_strings_is_ignored() {
    let keywords = combine_keywords(Some("{\"lekha\": 1}"));
    assert_eq!(keywords.get("lekha"), None);
    let keywords = combine_keywords(Some("[\"lekha\"]"));
    assert_eq!(keywords.get("lekha"), None);
    assert_eq!(keywords.get("var"), Some(&TokenKind::Var));
}

#[test]
fn apply_overlay_lays_pairs_over_a_table() {
    let pairs = vec![
        ("wenn".to_string(), "If".to_string()),
        ("sonst".to_string(), "Else".to_string()),
    ];
    let keywords = apply_overlay(get_default_keywords(), &pairs);
    assert_eq!(keywords.get("wenn"), Some(&TokenKind::If));
    assert_eq!(keywords.get("sonst"), Some(&TokenKind::Else));
    assert_eq!(keywords.get("if"), Some(&TokenKind::If));

    let bad = vec![
        ("wenn".to_string(), "If".to_string()),
        ("sonst".to_string(), "Otherwise".to_string()),
    ];
    let keywords = apply_overlay(get_default_keywords(), &bad);
    assert_eq!(keywords.get("wenn"), None);
}

#[test]
fn kinds_are_found_by_their_names() {
    assert_eq!(kind_from_name("Print"), Some(TokenKind::Print));
    assert_eq!(kind_from_name("LeftParen"), Some(TokenKind::LeftParen));
    assert_eq!(kind_from_name("Eof"), Some(TokenKind::Eof));
    assert_eq!(kind_from_name("print"), None);
    assert_eq!(kind_from_name(""), None);
    assert_eq!(TokenKind::GreaterEqual.name(), "GreaterEqual");
}

#[test]
fn an_overlay_keyword_lexes_as_its_kind_beside_the_default_one() {
    let json = "{\"lekha\": \"Print\"}";
    let mut lexer = Lexer::new_with_keywords("lekha print lekhak", Some(json));
    lexer.scan_tokens();
    let tokens = lexer.tokens;
    assert_eq!(tokens.len(), 4);
    assert_eq!(tokens[0].kind, TokenKind::Print);
    assert_eq!(tokens[0].lexeme, "lekha");
    assert_eq!(tokens[1].kind, TokenKind::Print);
    assert_eq!(tokens[2].kind, TokenKind::Identifier);
    assert_eq!(tokens[3].kind, TokenKind::Eof);

    let mut plain = Lexer::new_with_keywords("lekha print", None);
    plain.scan_tokens();
    assert_eq!(plain.tokens[0].kind, TokenKind::Identifier);
    assert_eq!(plain.tokens[1].kind, TokenKind::Print);
}
