use staged_cpu::lexer::Lexer;
use staged_cpu::parser::Parser;
use staged_cpu::types::ASTNodeType;

#[test]
fn parse_declaration_with_initializer() {
    let mut lexer = Lexer::new("int x = 5;".to_string());
    let tokens = lexer.tokenize().unwrap();
    let mut parser = Parser::new(tokens);
    let root = parser.parse().unwrap();
    assert_eq!(root.node_type, ASTNodeType::Program);
    assert_eq!(root.value, "program");
    // One declaration, then the trailing semicolon as an expression leaf.
    assert_eq!(root.children.len(), 2);
    let decl = &root.children[0];
    assert_eq!(decl.node_type, ASTNodeType::Declaration);
    assert_eq!(decl.value, "declaration");
    assert_eq!(decl.children.len(), 2);
    assert_eq!(decl.children[0].node_type, ASTNodeType::Expression);
    assert_eq!(decl.children[0].value, "x");
    assert_eq!(decl.children[1].node_type, ASTNodeType::Expression);
    assert_eq!(decl.children[1].value, "5");
    assert_eq!(root.children[1].node_type, ASTNodeType::Expression);
    assert_eq!(root.children[1].value, ";");
}

#[test]
fn parse_declaration_without_initializer() {
    let mut lexer = Lexer::new("int x;".to_string());
    let tokens = lexer.tokenize().unwrap();
    let mut parser = Parser::new(tokens);
    let root = parser.parse().unwrap();
    let decl = &root.children[0];
    assert_eq!(decl.node_type, ASTNodeType::Declaration);
    assert_eq!(decl.children.len(), 1);
    assert_eq!(decl.children[0].value, "x");
}

#[test]
fn parse_bare_int_keyword() {
    let mut lexer = Lexer::new("int".to_string());
    let tokens = lexer.tokenize().unwrap();
    let mut parser = Parser::new(tokens);
    let root = parser.parse().unwrap();
    assert_eq!(root.children.len(), 1);
    assert_eq!(root.children[0].node_type, ASTNodeType::Declaration);
    assert_eq!(root.children[0].children.len(), 0);
}

#[test]
fn parse_fallback_statements_are_single_token_expressions() {
    let mut lexer = Lexer::new("y = 2;".to_string());
    let tokens = lexer.tokenize().unwrap();
    let mut parser = Parser::new(tokens);
    let root = parser.parse().unwrap();
    assert_eq!(root.children.len(), 4);
    let values: Vec<&str> = root.children.iter().map(|c| c.value.as_str()).collect();
    assert_eq!(values, vec!["y", "=", "2", ";"]);
    for c in &root.children {
        assert_eq!(c.node_type, ASTNodeType::Expression);
        assert_eq!(c.children.len(), 0);
    }
}

#[test]
fn parse_empty_token_list() {
    let mut parser = Parser::new(Vec::new());
    let root = parser.parse().unwrap();
    assert_eq!(root.node_type, ASTNodeType::Program);
    assert_eq!(root.children.len(), 0);
}

#[test]
fn parse_two_declarations() {
    let mut lexer = Lexer::new("int a = 1; int b = 2;".to_string());
    let tokens = lexer.tokenize().unwrap();
    let mut parser = Parser::new(tokens);
    let root = parser.parse().unwrap();
    let decls: Vec<_> = root
        .children
        .iter()
        .filter(|c| c.node_type == ASTNodeType::Declaration)
        .collect();
    assert_eq!(decls.len(), 2);
    assert_eq!(decls[0].children[0].value, "a");
    assert_eq!(decls[0].children[1].value, "1");
    assert_eq!(decls[1].children[0].value, "b");
    assert_eq!(decls[1].children[1].value, "2");
}
