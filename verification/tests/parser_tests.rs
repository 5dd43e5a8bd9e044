use iridium::instruction::Opcode;
use iridium::parser::Token;
use iridium::parser::directive_declaration;
use iridium::parser::integer_operand;
use iridium::parser::opcode;
use iridium::parser::operand;
use iridium::parser::program;
use iridium::parser::register;
use iridium::symbols::SymbolTable;

#[test]
fn test_opcode() {
    // First tests the opcode is detected and parsed correctly
    let result = opcode("load");
    assert_eq!(result.is_some(), true);
    let (token, consumed) = result.unwrap();
    assert_eq!(token, Token::Op { code: Opcode::LOAD });
    assert_eq!(consumed, "load".len());

    let result = opcode("aold");
    let (token, _) = result.unwrap();
    assert_eq!(token, Token::Op { code: Opcode::IGL });
}

#[test]
fn test_parse_register() {
    let result = register("$0");
    assert_eq!(result.is_some(), true);
    let result = register("0");
    assert_eq!(result.is_some(), false);
    let result = register("$a");
    assert_eq!(result.is_some(), false);
}

#[test]
fn test_parser_integer_operand() {
    let result = integer_operand("#10");
    assert_eq!(result.is_some(), true);
    let (value, consumed) = result.unwrap();
    assert_eq!(consumed, "#10".len());
    assert_eq!(value, Token::IntegerOperand { value: 10 });

    let result = integer_operand("10");
    assert_eq!(result.is_some(), false);
}

#[test]
fn test_parser_directive() {
    let result = directive_declaration(".data");
    assert_eq!(result.is_some(), true);
    let (directive, _) = result.unwrap();
    assert_eq!(directive, Token::Directive { name: "data".to_string() })
}

#[test]
fn test_parse_program() {
    let result = program("load $0 #100\n");
    assert_eq!(result.is_ok(), true);
    let p = result.unwrap();
    assert_eq!(1, p.instructions.len());
}

#[test]
fn test_program_to_bytes() {
    let result = program("load $0 #100\n");
    assert_eq!(result.is_ok(), true);
    let p = result.unwrap();
    let symbols = SymbolTable::new();
    let bytecode = p.to_bytes(&symbols);
    assert_eq!(bytecode.len(), 4);
    println!("{:?}", bytecode);
}

#[test]
fn test_load_encoding() {
    let p = program("load $0 #100\n").unwrap();
    let symbols = SymbolTable::new();
    let bytecode = p.to_bytes(&symbols);
    assert_eq!(bytecode, vec![0, 0, 0, 100]);
}

#[test]
fn test_label_usage_operand() {
    let result = operand("@target");
    let (token, consumed) = result.unwrap();
    assert_eq!(token, Token::LabelUsage { name: "target".to_string() });
    assert_eq!(consumed, "@target".len());
}

#[test]
fn test_string_operand() {
    let result = operand("'hello world'");
    let (token, consumed) = result.unwrap();
    assert_eq!(token, Token::IrString { name: "hello world".to_string() });
    assert_eq!(consumed, "'hello world'".len());
}

#[test]
fn test_register_out_of_range_is_rejected() {
    assert!(register("$31").is_some());
    assert!(register("$256").is_none());
}

#[test]
fn test_integer_overflow_is_rejected() {
    assert!(integer_operand("#2147483647").is_some());
    assert!(integer_operand("#2147483648").is_none());
}

#[test]
fn test_unterminated_string_fails() {
    assert!(program(".data\nx: .asciiz 'abc\n.code\n").is_err());
}

#[test]
fn test_blank_lines_are_skipped() {
    let p = program("\n\nload $0 #1\n\nhlt\n").unwrap();
    assert_eq!(p.instructions.len(), 2);
}

#[test]
fn test_label_declaration_parsed() {
    let p = program("test: inc $0\n").unwrap();
    assert_eq!(p.instructions.len(), 1);
    assert!(p.instructions[0].is_label());
    assert_eq!(p.instructions[0].get_label_name(), Some("test".to_string()));
}

#[test]
fn test_label_alone_fails() {
    assert!(program("test:\n").is_err());
}

#[test]
fn test_four_operands_fail() {
    assert!(program("add $0 $1 $2 $3\n").is_err());
}

#[test]
fn test_empty_program_fails() {
    assert!(program("").is_err());
    assert!(program("   \n  \n").is_err());
}
