use rbvm::assembler::instruction_parsers::{
    parse_instr, parse_instr0, parse_instr1, parse_instr2, AssemblerInstr,
};
use rbvm::assembler::opcode_parsers::opcode_parser;
use rbvm::assembler::operand_parsers::{integer_parser, operand_parser, register_parser};
use rbvm::assembler::program_parsers::program_parser;
use rbvm::assembler::symbol_parsers::{directive_decl_parser, label_decl_parser, label_usage_parser};
use rbvm::assembler::{Assembler, Error, Instruction, Program, Symbol, SymbolKind, SymbolTable, Token};
use rbvm::opcodes::Opcode;
use rbvm::vm::Vm;

#[test]
fn test_assemble_program() {
    let mut assembler = Assembler::default();
    let program = r#"load $0 #100
load $1 #2
load $2 #1
inc $2
eq $1 $2
halt
        "#;
    let assembled = assembler.assemble(program).unwrap();
    let mut vm = Vm::default();
    assert_eq!(assembled.len(), 24);
    vm.push_bytes(assembled);
    assert_eq!(vm.program.len(), 24);
}

#[test]
fn test_assemble_label_resolution() {
    // A label binds to its own instruction's byte offset, not the next one's.
    let mut assembler = Assembler::default();
    let assembled = assembler.assemble("test: inc $0\njump @test\n").unwrap();
    assert_eq!(assembled, vec![18, 0, 0, 0, 7, 0, 0, 0]);
}

#[test]
fn test_assemble_forward_label() {
    let mut assembler = Assembler::default();
    let assembled = assembler.assemble("jf $0\ntest: inc $0\njump @test\n").unwrap();
    assert_eq!(assembled, vec![8, 0, 0, 0, 18, 0, 0, 0, 7, 0, 4, 0]);
}

#[test]
fn test_assemble_undefined_label() {
    // An undefined label is a hard assembly error, never a silent zero.
    let mut assembler = Assembler::default();
    let result = assembler.assemble("jump @nowhere\n");
    assert_eq!(result, Err(Error::LabelNotFound));
}

#[test]
fn test_assemble_duplicate_label_last_wins() {
    let mut assembler = Assembler::default();
    let assembled = assembler.assemble("a: pad\na: inc $0\njump @a\n").unwrap();
    // The second declaration of `a` sits at byte offset 4.
    assert_eq!(assembled, vec![0, 0, 0, 0, 18, 0, 0, 0, 7, 0, 4, 0]);
}

#[test]
fn test_assemble_single_instructions_emit_four_bytes() {
    // Valid single instructions with zero to three operands each emit
    // exactly four bytes.
    for source in ["halt", "inc $0", "load $0 #500", "add $0 $1 $2", "eq $1 $2"] {
        let mut assembler = Assembler::default();
        let assembled = assembler.assemble(source).unwrap();
        assert_eq!(assembled.len(), 4);
    }
    let mut assembler = Assembler::default();
    assert_eq!(assembler.assemble("load $0 #500").unwrap(), vec![2, 0, 1, 244]);
}

#[test]
fn test_assemble_truncates_wide_integers() {
    // Integer operands narrow to their low 16 bits, big-endian.
    let mut assembler = Assembler::default();
    let assembled = assembler.assemble("load $0 #70000\n").unwrap();
    assert_eq!(assembled, vec![2, 0, 17, 112]);
}

#[test]
fn test_assemble_rejects_garbage() {
    let mut assembler = Assembler::default();
    assert_eq!(assembler.assemble(""), Err(Error::ParseError));
    let mut assembler = Assembler::default();
    assert_eq!(assembler.assemble("???"), Err(Error::ParseError));
    let mut assembler = Assembler::default();
    assert_eq!(assembler.assemble("halt\n???"), Err(Error::ParseError));
    let mut assembler = Assembler::default();
    assert_eq!(assembler.assemble("halt caf\u{e9}"), Err(Error::ParseError));
}

#[test]
fn test_assemble_rejects_oversized_operands() {
    // A register index past 255 or an integer past `i32::MAX` fails to parse
    // as an operand, and the residue fails the whole assembly.
    let mut assembler = Assembler::default();
    assert_eq!(assembler.assemble("jump $256\n"), Err(Error::ParseError));
    let mut assembler = Assembler::default();
    assert_eq!(assembler.assemble("load $0 #2147483648\n"), Err(Error::ParseError));
}

#[test]
fn test_operand_requires_single_space() {
    // Exactly one space separates an operand from what precedes it; a
    // doubled space or a tab is not an operand, and the residue fails the
    // whole assembly.
    assert!(register_parser("  $5", 0).is_none());
    assert!(register_parser("\t$5", 0).is_none());
    assert!(integer_parser("  #5", 0).is_none());
    let mut assembler = Assembler::default();
    assert_eq!(assembler.assemble("load  $0 #1\n"), Err(Error::ParseError));
    let mut assembler = Assembler::default();
    assert_eq!(assembler.assemble("load\t$0 #1\n"), Err(Error::ParseError));
}

#[test]
fn test_assemble_rejects_overwide_instruction() {
    // Operands that together overflow the three operand bytes are a hard
    // emission error: every emitted instruction is exactly four bytes.
    let mut assembler = Assembler::default();
    assert_eq!(assembler.assemble("load $0 #1 #2\n"), Err(Error::OpcodeOperand));
    let over_wide = Instruction::new(
        Some(Token::Op { code: Opcode::LOAD }),
        (
            Some(Token::Integer { value: 1 }),
            Some(Token::Integer { value: 2 }),
            None,
        ),
    );
    assert_eq!(over_wide.to_bytes(), Err(Error::OpcodeOperand));
}

#[test]
fn test_assemble_rejects_blank_interior_line() {
    // The greedy repetition stops at the blank line, and the instructions
    // after it count as unconsumed non-whitespace residue.
    let mut assembler = Assembler::default();
    assert_eq!(assembler.assemble("halt\n\nhalt\n"), Err(Error::ParseError));
}

#[test]
fn test_assemble_accepts_missing_final_newline() {
    let mut assembler = Assembler::default();
    assert_eq!(assembler.assemble("inc $0\nhalt").unwrap().len(), 8);
}

#[test]
fn test_parse_instr0_register_with_int() {
    let result = parse_instr0("load $0 #12", 0);
    assert!(result.is_some());
    let (instr, _) = result.unwrap();
    assert_eq!(
        instr,
        AssemblerInstr::new(
            None,
            None,
            Some(Token::Op { code: Opcode::LOAD }),
            (
                Some(Token::Register { index: 0 }),
                Some(Token::Integer { value: 12 }),
                None
            ),
        )
    );
}

#[test]
fn test_parse_instr0_one_register() {
    let result = parse_instr0("jump $0", 0);
    assert!(result.is_some());
    let (instr, _) = result.unwrap();
    assert_eq!(
        instr,
        AssemblerInstr::new(
            None,
            None,
            Some(Token::Op { code: Opcode::JUMP }),
            (Some(Token::Register { index: 0 }), None, None),
        )
    );
}

#[test]
fn test_parse_instr1_two_registers() {
    let result = parse_instr1("ne $1 $24", 0);
    assert!(result.is_some());
    let (instr, _) = result.unwrap();
    assert_eq!(
        instr,
        AssemblerInstr::new(
            None,
            None,
            Some(Token::Op { code: Opcode::NE }),
            (
                Some(Token::Register { index: 1 }),
                Some(Token::Register { index: 24 }),
                None
            )
        )
    );
}

#[test]
fn test_parse_instr1_three_registers() {
    let result = parse_instr1("mul $1 $28 $3", 0);
    assert!(result.is_some());
    let (instr, _) = result.unwrap();
    assert_eq!(
        instr,
        AssemblerInstr::new(
            None,
            None,
            Some(Token::Op { code: Opcode::MUL }),
            (
                Some(Token::Register { index: 1 }),
                Some(Token::Register { index: 28 }),
                Some(Token::Register { index: 3 }),
            )
        )
    );
}

#[test]
fn test_parse_instr1_no_operands() {
    let result = parse_instr1("halt", 0);
    assert!(result.is_some());
    let (instr, _) = result.unwrap();
    assert_eq!(
        instr,
        AssemblerInstr::new(None, None, Some(Token::Op { code: Opcode::HALT }), (None, None, None))
    );
}

#[test]
fn test_parse_instr1_label_decl() {
    let result = parse_instr1("test: halt", 0);
    assert!(result.is_some());
    let (instr, _) = result.unwrap();
    assert_eq!(
        instr,
        AssemblerInstr::new(
            None,
            Some(Token::LabelDecl { name: "test".to_string() }),
            Some(Token::Op { code: Opcode::HALT }),
            (None, None, None),
        )
    );
}

#[test]
fn test_parse_instr2_label_usage() {
    let result = parse_instr2("jump @test", 0);
    assert!(result.is_some());
    let (instr, _) = result.unwrap();
    assert_eq!(
        instr,
        AssemblerInstr::new(
            None,
            Some(Token::LabelUsage { name: "test".to_string() }),
            Some(Token::Op { code: Opcode::JUMP }),
            (None, None, None),
        )
    );
}

#[test]
fn test_parse_instr_prefers_label_usage_shape() {
    // The branch-to-label shape is tried before the register/immediate
    // shape; reversing the order would parse `jump` with no operands and
    // leave ` @test` unconsumed.
    let result = parse_instr("jump @test", 0);
    assert!(result.is_some());
    let (instr, end) = result.unwrap();
    assert_eq!(end, 10);
    assert_eq!(
        instr.label,
        Some(Token::LabelUsage { name: "test".to_string() })
    );
}

#[test]
fn test_try_exrtact_label() {
    let (with_label, _) = parse_instr1("test: halt", 0).unwrap();
    assert_eq!(with_label.try_exrtact_label(), Ok("test".to_string()));
    let (without_label, _) = parse_instr1("halt", 0).unwrap();
    assert_eq!(without_label.try_exrtact_label(), Err(Error::LabelNotExtracted));
}

#[test]
fn test_opcode_parser_load() {
    let result = opcode_parser("load", 0);
    assert!(result.is_some());
    let (token, end) = result.unwrap();
    assert_eq!(token, Token::Op { code: Opcode::LOAD });
    assert_eq!(end, 4);
}

#[test]
fn test_opcode_parser_ill() {
    let result = opcode_parser("illegal", 0);
    assert!(result.is_some());
    let (token, end) = result.unwrap();
    assert_eq!(token, Token::Op { code: Opcode::ILL });
    assert_eq!(end, 7);
}

#[test]
fn test_register_parser() {
    let result0 = register_parser(" $52", 0);
    assert!(result0.is_some());

    let result1 = register_parser("52", 0);
    assert!(result1.is_none());

    let result2 = register_parser("$z", 0);
    assert!(result2.is_none());
}

#[test]
fn test_int_operand_parser() {
    let result0 = integer_parser(" #52", 0);
    assert!(result0.is_some());
    let (token, end) = result0.unwrap();
    assert_eq!(end, 4);
    assert_eq!(token, Token::Integer { value: 52 });

    let result1 = integer_parser("52", 0);
    assert!(result1.is_none());

    let result2 = integer_parser("#z", 0);
    assert!(result2.is_none());
}

#[test]
fn test_operand_parser_prefers_register() {
    let (token, _) = operand_parser(" $3", 0).unwrap();
    assert_eq!(token, Token::Register { index: 3 });
    let (token, _) = operand_parser(" #3", 0).unwrap();
    assert_eq!(token, Token::Integer { value: 3 });
}

#[test]
fn test_label_decl_parser() {
    let result0 = label_decl_parser("test: halt", 0);
    assert!(result0.is_some());
    let (token, end) = result0.unwrap();
    assert_eq!(&"test: halt"[end..], "halt");
    assert_eq!(token, Token::LabelDecl { name: "test".to_string() });

    let result1 = label_decl_parser("test", 0);
    assert!(result1.is_none());
}

#[test]
fn test_label_usage_parser() {
    let result0 = label_usage_parser(" @test", 0);
    assert!(result0.is_some());
    let (token, _) = result0.unwrap();
    assert_eq!(token, Token::LabelUsage { name: "test".to_string() });

    let result1 = label_usage_parser("test", 0);
    assert!(result1.is_none());
}

#[test]
fn test_directive_decl_parser() {
    let result0 = directive_decl_parser("!data", 0);
    assert!(result0.is_some());
    let (token, end) = result0.unwrap();
    assert_eq!(end, 5);
    assert_eq!(token, Token::Directive { name: "data".to_string() });

    let result1 = directive_decl_parser("data", 0);
    assert!(result1.is_none());
}

#[test]
fn test_program_parser_no_registers() {
    let result = program_parser("hlt\n");
    assert!(result.is_some());
    let (program, consumed) = result.unwrap();
    assert_eq!(consumed, 4);
    assert_eq!(program.instrs.len(), 1);
}

#[test]
fn test_program_parser_one_register() {
    let result = program_parser("jmp $0\n");
    assert!(result.is_some());
    let (program, consumed) = result.unwrap();
    assert_eq!(consumed, 7);
    assert_eq!(program.instrs.len(), 1);
}

#[test]
fn test_program_parser_two_registers() {
    let result = program_parser("eq $1 $2\n");
    assert!(result.is_some());
    let (program, consumed) = result.unwrap();
    assert_eq!(consumed, 9);
    assert_eq!(program.instrs.len(), 1);
}

#[test]
fn test_program_parser_register_with_integer() {
    let result = program_parser("load $0 #102\n");
    assert!(result.is_some());
    let (program, consumed) = result.unwrap();
    assert_eq!(consumed, 13);
    assert_eq!(program.instrs.len(), 1);
}

#[test]
fn test_program_parser_three_registers() {
    let result = program_parser("add $1 $2 $3\n");
    assert!(result.is_some());
    let (program, consumed) = result.unwrap();
    assert_eq!(consumed, 13);
    assert_eq!(program.instrs.len(), 1);
}

#[test]
fn test_program_parser_to_bytes() {
    let result = program_parser("load $0 #102\n");
    let (program, _) = result.unwrap();
    let bytecode = program.to_bytes().unwrap();
    assert_eq!(bytecode.len(), 4);
}

#[test]
fn test_program_parser_multiple_lines() {
    let result = program_parser("load $0 #1\nadd $0 $0 $1\nhalt\n");
    assert!(result.is_some());
    let (program, _) = result.unwrap();
    assert_eq!(program.instrs.len(), 3);
}

#[test]
fn test_symbol_table_lookup_last_wins() {
    let mut table = SymbolTable::new();
    table.symbols.push(Symbol { name: "a".to_string(), kind: SymbolKind::Label, offset: 0 });
    table.symbols.push(Symbol { name: "b".to_string(), kind: SymbolKind::Label, offset: 4 });
    table.symbols.push(Symbol { name: "a".to_string(), kind: SymbolKind::Label, offset: 8 });
    assert_eq!(table.lookup("a"), Some(8));
    assert_eq!(table.lookup("b"), Some(4));
    assert_eq!(table.lookup("c"), None);
}

#[test]
fn test_program_symbol_table_offsets() {
    let (program, _) = program_parser("pad\nfoo: inc $0\nbar: halt\n").unwrap();
    let table = program.symbol_table();
    assert_eq!(table.lookup("foo"), Some(4));
    assert_eq!(table.lookup("bar"), Some(8));
    assert_eq!(table.lookup("pad"), None);
}

#[test]
fn test_instruction_to_bytes_errors() {
    let no_opcode = Instruction::new(None, (None, None, None));
    assert_eq!(no_opcode.to_bytes(), Err(Error::NotOpcode));

    let opcode_in_operand_slot = Instruction::new(
        Some(Token::Op { code: Opcode::HALT }),
        (Some(Token::Op { code: Opcode::HALT }), None, None),
    );
    assert_eq!(opcode_in_operand_slot.to_bytes(), Err(Error::OpcodeOperand));
}

#[test]
fn test_instruction_to_bytes_pads_to_four() {
    let instr = Instruction::new(
        Some(Token::Op { code: Opcode::INC }),
        (Some(Token::Register { index: 2 }), None, None),
    );
    assert_eq!(instr.to_bytes().unwrap(), vec![18, 2, 0, 0]);
}

#[test]
fn test_resolve_branch_form() {
    let mut table = SymbolTable::new();
    table.symbols.push(Symbol { name: "test".to_string(), kind: SymbolKind::Label, offset: 12 });
    let (instr, _) = parse_instr("jump @test", 0).unwrap();
    let resolved = instr.resolve(&table).unwrap();
    assert_eq!(
        resolved,
        Instruction::new(
            Some(Token::Op { code: Opcode::JUMP }),
            (Some(Token::Integer { value: 12 }), None, None),
        )
    );
}

#[test]
fn test_program_to_bytes_reports_first_error() {
    let program = Program { instrs: vec![] };
    assert_eq!(program.to_bytes(), Ok(vec![]));
}
