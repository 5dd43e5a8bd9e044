use iridium::assembler::Assembler;
use iridium::assembler_errors::AssemblerError;
use iridium::parser::program;
use iridium::symbols::Symbol;
use iridium::symbols::SymbolTable;
use iridium::symbols::SymbolType;
use iridium::vm::VM;

#[test]
fn test_symbol_table() {
    let mut sym = SymbolTable::default();
    let new_symbol = Symbol::new_with_offset("test".to_string(), SymbolType::Label, 12);
    sym.add_symbol(new_symbol);
    assert_eq!(sym.symbols.len(), 1);
    let v = sym.symbol_value("test");
    assert_eq!(true, v.is_some());
    let v = v.unwrap();
    assert_eq!(v, 12);
    let v = sym.symbol_value("does_not_exist");
    assert_eq!(false, v.is_some());
}

#[test]
fn test_assemble_program() {
    let mut assembler = Assembler::new();
    let test_string =
        ".data\n.code\nload $0 #100\nload $1 #1\nload $2 #0\ntest: inc $0\nneq $0 $2\njmpe @test\nhlt";
    println!("Attempting to assemble: {:?}", test_string);
    let program = assembler.assemble(test_string).unwrap();
    println!("Assembled Program: {:?}", program);
    let mut vm = VM::default();
    assert_eq!(program.len(), 92);
    vm.add_bytes(program);
    assert_eq!(vm.program.len(), 92)
}

#[test]
fn test_ro_data() {
    let mut assembler = Assembler::new();
    let test_string = ".data\ntest: .asciiz 'This is a test'\n.code\n";
    let program = assembler.assemble(test_string);
    assert_eq!(program.is_ok(), true);
}

#[test]
fn test_bad_ro_data() {
    let mut assembler = Assembler::new();
    let test_string = ".code\ntest: .asciiz 'This is a test'\n.wrong\n";
    let program = assembler.assemble(test_string);
    assert_eq!(program.is_ok(), false);
}

#[test]
fn test_first_phase_no_segment() {
    let mut assembler = Assembler::new();
    let test_string = "hello: .asciiz 'Fail'";
    let result = program(test_string);
    assert_eq!(result.is_ok(), true);
    let p = result.unwrap();
    assembler.process_first_phase(&p);
    assert_eq!(assembler.errors.len(), 1);
}

#[test]
fn test_first_phase_inside_segment() {
    let mut assembler = Assembler::new();
    let test_string = ".data\ntest: .asciiz 'Hello'";
    let result = program(test_string);
    assert_eq!(result.is_ok(), true);
    let p = result.unwrap();
    assembler.process_first_phase(&p);
    assert_eq!(assembler.errors.len(), 0);
}

#[test]
fn test_header_bytes() {
    let mut assembler = Assembler::new();
    let image = assembler.assemble(".data\n.code\nhlt").unwrap();
    assert_eq!(&image[0..4], &[0x2D, 0x32, 0x31, 0x2D]);
    for k in 4..64 {
        assert_eq!(image[k], 0);
    }
    assert_eq!(image.len(), 68);
}

#[test]
fn test_ro_data_contents() {
    let mut assembler = Assembler::new();
    let test_string = ".data\ntest: .asciiz 'This is a test'\n.code\n";
    let result = assembler.assemble(test_string);
    assert!(result.is_ok());
    assert_eq!(assembler.symbols.symbol_value("test"), Some(0));
    let mut expected: Vec<u8> = "This is a test".as_bytes().to_vec();
    expected.push(0);
    assert_eq!(assembler.ro, expected);
}

#[test]
fn test_duplicate_label_rejected() {
    let mut assembler = Assembler::new();
    let result = assembler.assemble(".data\n.code\nlbl: inc $0\nlbl: inc $1\n");
    let errors = result.unwrap_err();
    assert!(errors.iter().any(|e| matches!(e, AssemblerError::SymbolAlreadyDeclared)));
}

#[test]
fn test_single_section_rejected() {
    let mut assembler = Assembler::new();
    let result = assembler.assemble(".code\nhlt");
    let errors = result.unwrap_err();
    assert!(errors.iter().any(|e| matches!(e, AssemblerError::InsufficientSections)));
}

#[test]
fn test_no_section_rejected() {
    let mut assembler = Assembler::new();
    let result = assembler.assemble("hlt");
    let errors = result.unwrap_err();
    assert!(errors.iter().any(|e| matches!(e, AssemblerError::InsufficientSections)));
}

#[test]
fn test_no_segment_error_from_assemble() {
    let mut assembler = Assembler::new();
    let result = assembler.assemble("hello: .asciiz 'Fail'");
    let errors = result.unwrap_err();
    assert!(
        errors.iter().any(
            |e| matches!(e, AssemblerError::NoSegmentDeclarationFound { .. }),
        )
    );
}

#[test]
fn test_unknown_directive_error() {
    let mut assembler = Assembler::new();
    let result = assembler.assemble(".data\n.code\n.wrong #1\n");
    let errors = result.unwrap_err();
    assert!(
        errors.iter().any(|e| matches!(e, AssemblerError::UnknownDirectiveFound { .. })),
    );
}

#[test]
fn test_string_without_label_error() {
    let mut assembler = Assembler::new();
    let result = assembler.assemble(".data\n.asciiz 'lonely'\n.code\n");
    let errors = result.unwrap_err();
    assert!(
        errors.iter().any(
            |e| matches!(e, AssemblerError::StringConstantDeclaredWithoutLabel { .. }),
        )
    );
}

#[test]
fn test_parse_error_from_assemble() {
    let mut assembler = Assembler::new();
    let result = assembler.assemble("load $0 #100 garbage !!!");
    let errors = result.unwrap_err();
    assert_eq!(errors.len(), 1);
    assert!(matches!(errors[0], AssemblerError::ParseError { .. }));
}

#[test]
fn test_empty_source_is_parse_error() {
    let mut assembler = Assembler::new();
    let result = assembler.assemble("");
    let errors = result.unwrap_err();
    assert!(matches!(errors[0], AssemblerError::ParseError { .. }));
}

#[test]
fn test_error_description() {
    let e = AssemblerError::InsufficientSections;
    assert_eq!(
        e.description(),
        "Less than two sections/segments were found in the code",
    );
}

#[test]
fn test_assembled_program_runs() {
    let mut assembler = Assembler::new();
    let image = assembler.assemble(".data\n.code\nload $3 #500\nhlt").unwrap();
    let mut vm = VM::default();
    vm.add_bytes(image);
    let ok = vm.run();
    assert!(ok);
    assert_eq!(vm.registers[3], 500);
}
