use staged_cpu::lexer::Lexer;
use staged_cpu::types::TokenType;

#[test]
fn tokenize_declaration() {
    let mut lexer = Lexer::new("int x = 5;".to_string());
    let tokens = lexer.tokenize().unwrap();
    assert_eq!(tokens.len(), 5);
    assert_eq!(tokens[0].token_type, TokenType::Keyword);
    assert_eq!(tokens[0].value, "int");
    assert_eq!(tokens[0].position, 0);
    assert_eq!(tokens[1].token_type, TokenType::Identifier);
    assert_eq!(tokens[1].value, "x");
    assert_eq!(tokens[1].position, 4);
    assert_eq!(tokens[2].token_type, TokenType::Operator);
    assert_eq!(tokens[2].value, "=");
    assert_eq!(tokens[2].position, 6);
    assert_eq!(tokens[3].token_type, TokenType::Number);
    assert_eq!(tokens[3].value, "5");
    assert_eq!(tokens[3].position, 8);
    assert_eq!(tokens[4].token_type, TokenType::Delimiter);
    assert_eq!(tokens[4].value, ";");
    assert_eq!(tokens[4].position, 9);
    for t in &tokens {
        assert_ne!(t.token_type, TokenType::Whitespace);
        assert_ne!(t.token_type, TokenType::Comment);
    }
}

#[test]
fn tokenize_skips_unrecognized_characters() {
    let mut lexer = Lexer::new("int @x = 5;".to_string());
    let tokens = lexer.tokenize().unwrap();
    let values: Vec<&str> = tokens.iter().map(|t| t.value.as_str()).collect();
    assert_eq!(values, vec!["int", "x", "=", "5", ";"]);
}

#[test]
fn tokenize_string_literal() {
    let mut lexer = Lexer::new("\"hello world\"".to_string());
    let tokens = lexer.tokenize().unwrap();
    assert_eq!(tokens.len(), 1);
    assert_eq!(tokens[0].token_type, TokenType::String);
    assert_eq!(tokens[0].value, "\"hello world\"");
}

#[test]
fn tokenize_unterminated_string_has_no_string_token() {
    let mut lexer = Lexer::new("\"abc".to_string());
    let tokens = lexer.tokenize().unwrap();
    // The opening quote matches nothing and is skipped; abc is an identifier.
    assert_eq!(tokens.len(), 1);
    assert_eq!(tokens[0].token_type, TokenType::Identifier);
    assert_eq!(tokens[0].value, "abc");
}

#[test]
fn tokenize_preprocessor_directive() {
    let mut lexer = Lexer::new("#include <stdio.h>".to_string());
    let tokens = lexer.tokenize().unwrap();
    assert_eq!(tokens[0].token_type, TokenType::Keyword);
    assert_eq!(tokens[0].value, "#include");
    assert_eq!(tokens[1].token_type, TokenType::Operator);
    assert_eq!(tokens[1].value, "<");
    assert_eq!(tokens[2].token_type, TokenType::Keyword);
    assert_eq!(tokens[2].value, "stdio");
    // '.' matches no pattern and is skipped silently.
    assert_eq!(tokens[3].token_type, TokenType::Identifier);
    assert_eq!(tokens[3].value, "h");
    assert_eq!(tokens[4].token_type, TokenType::Operator);
    assert_eq!(tokens[4].value, ">");
    assert_eq!(tokens.len(), 5);
}

#[test]
fn tokenize_double_slash_is_an_operator_run() {
    // The operator pattern has higher priority than the line comment, so
    // two slashes become an Operator token and the comment body is lexed.
    let mut lexer = Lexer::new("// note".to_string());
    let tokens = lexer.tokenize().unwrap();
    assert_eq!(tokens.len(), 2);
    assert_eq!(tokens[0].token_type, TokenType::Operator);
    assert_eq!(tokens[0].value, "//");
    assert_eq!(tokens[1].token_type, TokenType::Identifier);
    assert_eq!(tokens[1].value, "note");
}

#[test]
fn tokenize_digits_glued_to_letters_yield_nothing() {
    // "9x" is neither a number (no word boundary after the digits) nor an
    // identifier (no word boundary before the letter).
    let mut lexer = Lexer::new("9x".to_string());
    let tokens = lexer.tokenize().unwrap();
    assert_eq!(tokens.len(), 0);
}

#[test]
fn tokenize_keyword_prefix_is_an_identifier() {
    let mut lexer = Lexer::new("integer".to_string());
    let tokens = lexer.tokenize().unwrap();
    assert_eq!(tokens.len(), 1);
    assert_eq!(tokens[0].token_type, TokenType::Identifier);
    assert_eq!(tokens[0].value, "integer");
}

#[test]
fn tokenize_operator_run_is_one_token() {
    let mut lexer = Lexer::new("a <= b".to_string());
    let tokens = lexer.tokenize().unwrap();
    assert_eq!(tokens.len(), 3);
    assert_eq!(tokens[1].token_type, TokenType::Operator);
    assert_eq!(tokens[1].value, "<=");
}

#[test]
fn tokenize_empty_input() {
    let mut lexer = Lexer::new(String::new());
    let tokens = lexer.tokenize().unwrap();
    assert_eq!(tokens.len(), 0);
}
