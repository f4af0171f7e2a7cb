//! A reduced instruction model: a smaller opcode table and an instruction
//! that carries nothing but its operation selector. The assembler and the
//! machine work with the richer table in `opcodes`.

use vstd::prelude::*;

verus! {

/// The reduced opcode table, without the increment and decrement
/// operations; `IGL` is its illegal-opcode sentinel.
#[derive(Debug, PartialEq, Eq, Structural, Clone, Copy)]
pub enum Opcode {
    EMTB,
    HLT,
    LOAD,
    ADD,
    SUB,
    MUL,
    DIV,
    JMP,
    JMPF,
    JMPB,
    EQ,
    NEQ,
    GT,
    LT,
    GTQ,
    LTQ,
    JEQ,
    JNEQ,
    IGL,
}

/// An instruction of the reduced model: just the operation selector.
pub struct Instruction {
    pub opcode: Opcode,
}

impl Instruction {
    /// Wrap an opcode as an instruction.
    pub fn new(opcode: Opcode) -> (r: Instruction)
        ensures
            r.opcode == opcode,
    {
        Instruction { opcode }
    }
}

} // verus!
