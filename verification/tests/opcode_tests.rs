use rbvm::instruction;
use rbvm::opcodes::Opcode;

#[test]
fn test_create_halt() {
    let opcode = Opcode::HALT;
    assert_eq!(opcode, Opcode::HALT);
}

#[test]
fn test_opcode_from_str() {
    let opcode = Opcode::from("load");
    assert_eq!(opcode, Opcode::LOAD);
    let opcode = Opcode::from("illegal");
    assert_eq!(opcode, Opcode::ILL);
}

#[test]
fn test_opcode_byte_round_trip() {
    // Decoding an encoded opcode gives the opcode back, for every opcode in
    // the table, the illegal sentinel included.
    let opcodes = [
        Opcode::PAD,
        Opcode::HALT,
        Opcode::LOAD,
        Opcode::ADD,
        Opcode::SUB,
        Opcode::MUL,
        Opcode::DIV,
        Opcode::JUMP,
        Opcode::JF,
        Opcode::JB,
        Opcode::EQ,
        Opcode::NE,
        Opcode::GT,
        Opcode::LT,
        Opcode::GTE,
        Opcode::LTE,
        Opcode::JE,
        Opcode::JNE,
        Opcode::INC,
        Opcode::DEC,
        Opcode::ILL,
    ];
    for op in opcodes {
        assert_eq!(Opcode::from(op.to_byte()), op);
    }
}

#[test]
fn test_opcode_from_unmapped_byte() {
    assert_eq!(Opcode::from(20u8), Opcode::ILL);
    assert_eq!(Opcode::from(255u8), Opcode::ILL);
    assert_eq!(Opcode::from(0u8), Opcode::PAD);
    assert_eq!(Opcode::from(19u8), Opcode::DEC);
}

#[test]
fn test_opcode_from_str_all_mnemonics() {
    let table = [
        ("pad", Opcode::PAD),
        ("halt", Opcode::HALT),
        ("load", Opcode::LOAD),
        ("add", Opcode::ADD),
        ("sub", Opcode::SUB),
        ("mul", Opcode::MUL),
        ("div", Opcode::DIV),
        ("jump", Opcode::JUMP),
        ("jf", Opcode::JF),
        ("jb", Opcode::JB),
        ("eq", Opcode::EQ),
        ("ne", Opcode::NE),
        ("gt", Opcode::GT),
        ("lt", Opcode::LT),
        ("gte", Opcode::GTE),
        ("lte", Opcode::LTE),
        ("je", Opcode::JE),
        ("jne", Opcode::JNE),
        ("inc", Opcode::INC),
        ("dec", Opcode::DEC),
    ];
    for (name, op) in table {
        assert_eq!(Opcode::from(name), op);
    }
    assert_eq!(Opcode::from("LOAD"), Opcode::ILL);
    assert_eq!(Opcode::from(""), Opcode::ILL);
}

#[test]
fn test_create_hlt() {
    let opcode = instruction::Opcode::HLT;
    assert_eq!(opcode, instruction::Opcode::HLT);
}

#[test]
fn test_create_instruction() {
    let instr = instruction::Instruction::new(instruction::Opcode::HLT);
    assert_eq!(instr.opcode, instruction::Opcode::HLT);
}
