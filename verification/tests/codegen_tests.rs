use staged_cpu::codegen::CodeGenerator;
use staged_cpu::lexer::Lexer;
use staged_cpu::parser::Parser;
use staged_cpu::types::{ASTNode, ASTNodeType, InstructionType};

fn generate_for(source: &str) -> Vec<staged_cpu::types::Instruction> {
    let mut lexer = Lexer::new(source.to_string());
    let tokens = lexer.tokenize().unwrap();
    let mut parser = Parser::new(tokens);
    let ast = parser.parse().unwrap();
    let mut generator = CodeGenerator::new(ast);
    generator.generate().unwrap()
}

#[test]
fn generate_load_and_store_for_literal_declaration() {
    let instructions = generate_for("int x = 5;");
    assert_eq!(instructions.len(), 2);

    let mov = &instructions[0];
    assert_eq!(mov.id, "mov_0");
    assert_eq!(mov.instruction_type, InstructionType::DataTransfer);
    assert_eq!(mov.mnemonic, "MOV");
    assert_eq!(mov.operands, vec!["EAX".to_string(), "5".to_string()]);
    assert_eq!(mov.machine_code, "B800000005");
    assert_eq!(mov.cycles, 1);

    let store = &instructions[1];
    assert_eq!(store.id, "store_1");
    assert_eq!(store.instruction_type, InstructionType::Memory);
    assert_eq!(store.mnemonic, "MOV");
    assert_eq!(store.operands, vec!["[1000]".to_string(), "EAX".to_string()]);
    assert_eq!(store.machine_code, "8905000003E8");
    assert_eq!(store.cycles, 2);
}

#[test]
fn second_declaration_stores_four_bytes_higher() {
    let instructions = generate_for("int x = 5; int y = 7;");
    assert_eq!(instructions.len(), 4);
    assert_eq!(instructions[0].id, "mov_0");
    assert_eq!(instructions[1].id, "store_1");
    assert_eq!(instructions[1].operands[0], "[1000]");
    assert_eq!(instructions[2].id, "mov_2");
    assert_eq!(instructions[2].operands[1], "7");
    assert_eq!(instructions[3].id, "store_3");
    assert_eq!(instructions[3].operands[0], "[1004]");
}

#[test]
fn non_literal_initializer_emits_nothing() {
    let instructions = generate_for("int x = y;");
    assert_eq!(instructions.len(), 0);
}

#[test]
fn declaration_without_initializer_emits_nothing() {
    let instructions = generate_for("int x;");
    assert_eq!(instructions.len(), 0);
}

#[test]
fn negative_literal_declaration_emits_nothing() {
    // The minus sign is a separate Operator token, so the declaration's
    // second child is "-", which is not an integer literal.
    let instructions = generate_for("int x = -5;");
    assert_eq!(instructions.len(), 0);
}

#[test]
fn negative_value_renders_full_width_hex() {
    let mut tree = ASTNode {
        node_type: ASTNodeType::Declaration,
        value: "declaration".to_string(),
        children: Vec::new(),
    };
    tree.children.push(ASTNode {
        node_type: ASTNodeType::Expression,
        value: "x".to_string(),
        children: Vec::new(),
    });
    tree.children.push(ASTNode {
        node_type: ASTNodeType::Expression,
        value: "-1".to_string(),
        children: Vec::new(),
    });
    let mut generator = CodeGenerator::new(tree);
    let instructions = generator.generate().unwrap();
    assert_eq!(instructions.len(), 2);
    assert_eq!(instructions[0].operands[1], "-1");
    assert_eq!(instructions[0].machine_code, "B8FFFFFFFFFFFFFFFF");
}

#[test]
fn non_declaration_nodes_are_traversed_without_emission() {
    let mut block = ASTNode {
        node_type: ASTNodeType::Block,
        value: "block".to_string(),
        children: Vec::new(),
    };
    let mut decl = ASTNode {
        node_type: ASTNodeType::Declaration,
        value: "declaration".to_string(),
        children: Vec::new(),
    };
    decl.children.push(ASTNode {
        node_type: ASTNodeType::Expression,
        value: "n".to_string(),
        children: Vec::new(),
    });
    decl.children.push(ASTNode {
        node_type: ASTNodeType::Expression,
        value: "9".to_string(),
        children: Vec::new(),
    });
    block.children.push(decl);
    let mut generator = CodeGenerator::new(block);
    let instructions = generator.generate().unwrap();
    // The Block is traversed; its nested declaration emits.
    assert_eq!(instructions.len(), 2);
    assert_eq!(instructions[0].operands[1], "9");
}
