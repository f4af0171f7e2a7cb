//! The instruction set of the virtual machine: the opcode table, its stable
//! byte encoding, and the mapping from mnemonic names to opcodes.

use vstd::prelude::*;
use vstd::string::StringSliceAdditionalSpecFns;

verus! {

/// One operation of the virtual machine. `ILL` is the sentinel for an
/// unmapped byte or an unknown mnemonic; decoding never fails, it yields
/// `ILL` instead.
#[derive(Debug, PartialEq, Eq, Structural, Clone, Copy)]
pub enum Opcode {
    PAD,
    HALT,
    LOAD,
    ADD,
    SUB,
    MUL,
    DIV,
    JUMP,
    JF,
    JB,
    EQ,
    NE,
    GT,
    LT,
    GTE,
    LTE,
    JE,
    JNE,
    INC,
    DEC,
    ILL,
}

/// The stable byte encoding of each opcode. `ILL` is the sentinel value 20,
/// one past the last real opcode.
pub open spec fn opcode_to_byte(op: Opcode) -> u8 {
    match op {
        Opcode::PAD => 0,
        Opcode::HALT => 1,
        Opcode::LOAD => 2,
        Opcode::ADD => 3,
        Opcode::SUB => 4,
        Opcode::MUL => 5,
        Opcode::DIV => 6,
        Opcode::JUMP => 7,
        Opcode::JF => 8,
        Opcode::JB => 9,
        Opcode::EQ => 10,
        Opcode::NE => 11,
        Opcode::GT => 12,
        Opcode::LT => 13,
        Opcode::GTE => 14,
        Opcode::LTE => 15,
        Opcode::JE => 16,
        Opcode::JNE => 17,
        Opcode::INC => 18,
        Opcode::DEC => 19,
        Opcode::ILL => 20,
    }
}

/// The opcode a byte decodes to; every byte at or above the sentinel decodes
/// to `ILL`.
pub open spec fn opcode_from_byte(b: u8) -> Opcode {
    if b == 0 {
        Opcode::PAD
    } else if b == 1 {
        Opcode::HALT
    } else if b == 2 {
        Opcode::LOAD
    } else if b == 3 {
        Opcode::ADD
    } else if b == 4 {
        Opcode::SUB
    } else if b == 5 {
        Opcode::MUL
    } else if b == 6 {
        Opcode::DIV
    } else if b == 7 {
        Opcode::JUMP
    } else if b == 8 {
        Opcode::JF
    } else if b == 9 {
        Opcode::JB
    } else if b == 10 {
        Opcode::EQ
    } else if b == 11 {
        Opcode::NE
    } else if b == 12 {
        Opcode::GT
    } else if b == 13 {
        Opcode::LT
    } else if b == 14 {
        Opcode::GTE
    } else if b == 15 {
        Opcode::LTE
    } else if b == 16 {
        Opcode::JE
    } else if b == 17 {
        Opcode::JNE
    } else if b == 18 {
        Opcode::INC
    } else if b == 19 {
        Opcode::DEC
    } else {
        Opcode::ILL
    }
}

/// The opcode named by a mnemonic, over the mnemonic's bytes; any other
/// name maps to the `ILL` sentinel.
pub open spec fn opcode_of_name(n: Seq<u8>) -> Opcode {
    if n.len() == 2 {
        if n[0] == 106 && n[1] == 102 {  // "jf"
            Opcode::JF
        } else if n[0] == 106 && n[1] == 98 {  // "jb"
            Opcode::JB
        } else if n[0] == 101 && n[1] == 113 {  // "eq"
            Opcode::EQ
        } else if n[0] == 110 && n[1] == 101 {  // "ne"
            Opcode::NE
        } else if n[0] == 103 && n[1] == 116 {  // "gt"
            Opcode::GT
        } else if n[0] == 108 && n[1] == 116 {  // "lt"
            Opcode::LT
        } else if n[0] == 106 && n[1] == 101 {  // "je"
            Opcode::JE
        } else {
            Opcode::ILL
        }
    } else if n.len() == 3 {
        if n[0] == 112 && n[1] == 97 && n[2] == 100 {  // "pad"
            Opcode::PAD
        } else if n[0] == 97 && n[1] == 100 && n[2] == 100 {  // "add"
            Opcode::ADD
        } else if n[0] == 115 && n[1] == 117 && n[2] == 98 {  // "sub"
            Opcode::SUB
        } else if n[0] == 109 && n[1] == 117 && n[2] == 108 {  // "mul"
            Opcode::MUL
        } else if n[0] == 100 && n[1] == 105 && n[2] == 118 {  // "div"
            Opcode::DIV
        } else if n[0] == 103 && n[1] == 116 && n[2] == 101 {  // "gte"
            Opcode::GTE
        } else if n[0] == 108 && n[1] == 116 && n[2] == 101 {  // "lte"
            Opcode::LTE
        } else if n[0] == 106 && n[1] == 110 && n[2] == 101 {  // "jne"
            Opcode::JNE
        } else if n[0] == 105 && n[1] == 110 && n[2] == 99 {  // "inc"
            Opcode::INC
        } else if n[0] == 100 && n[1] == 101 && n[2] == 99 {  // "dec"
            Opcode::DEC
        } else {
            Opcode::ILL
        }
    } else if n.len() == 4 {
        if n[0] == 104 && n[1] == 97 && n[2] == 108 && n[3] == 116 {  // "halt"
            Opcode::HALT
        } else if n[0] == 108 && n[1] == 111 && n[2] == 97 && n[3] == 100 {  // "load"
            Opcode::LOAD
        } else if n[0] == 106 && n[1] == 117 && n[2] == 109 && n[3] == 112 {  // "jump"
            Opcode::JUMP
        } else {
            Opcode::ILL
        }
    } else {
        Opcode::ILL
    }
}

impl Opcode {
    /// Encode this opcode as its instruction byte.
    pub fn to_byte(self) -> (r: u8)
        ensures
            r == opcode_to_byte(self),
    {
        match self {
            Opcode::PAD => 0,
            Opcode::HALT => 1,
            Opcode::LOAD => 2,
            Opcode::ADD => 3,
            Opcode::SUB => 4,
            Opcode::MUL => 5,
            Opcode::DIV => 6,
            Opcode::JUMP => 7,
            Opcode::JF => 8,
            Opcode::JB => 9,
            Opcode::EQ => 10,
            Opcode::NE => 11,
            Opcode::GT => 12,
            Opcode::LT => 13,
            Opcode::GTE => 14,
            Opcode::LTE => 15,
            Opcode::JE => 16,
            Opcode::JNE => 17,
            Opcode::INC => 18,
            Opcode::DEC => 19,
            Opcode::ILL => 20,
        }
    }
}

impl core::convert::From<u8> for Opcode {
    /// Decode an instruction byte; unmapped bytes decode to `ILL`.
    fn from(value: u8) -> (r: Opcode) {
        match value {
            0 => Opcode::PAD,
            1 => Opcode::HALT,
            2 => Opcode::LOAD,
            3 => Opcode::ADD,
            4 => Opcode::SUB,
            5 => Opcode::MUL,
            6 => Opcode::DIV,
            7 => Opcode::JUMP,
            8 => Opcode::JF,
            9 => Opcode::JB,
            10 => Opcode::EQ,
            11 => Opcode::NE,
            12 => Opcode::GT,
            13 => Opcode::LT,
            14 => Opcode::GTE,
            15 => Opcode::LTE,
            16 => Opcode::JE,
            17 => Opcode::JNE,
            18 => Opcode::INC,
            19 => Opcode::DEC,
            _ => Opcode::ILL,
        }
    }
}

impl vstd::std_specs::convert::FromSpecImpl<u8> for Opcode {
    open spec fn obeys_from_spec() -> bool {
        true
    }

    open spec fn from_spec(v: u8) -> Opcode {
        opcode_from_byte(v)
    }
}

/// Decide which opcode the letters `bytes[start .. end)` name.
pub fn opcode_for_range(bytes: &[u8], start: usize, end: usize) -> (r: Opcode)
    requires
        start <= end <= bytes@.len(),
    ensures
        r == opcode_of_name(bytes@.subrange(start as int, end as int)),
{
    let ghost sub = bytes@.subrange(start as int, end as int);
    proof {
        assert(forall|i: int| 0 <= i < sub.len() ==> sub[i] == bytes@[start + i]);
    }
    let n = end - start;
    if n == 2 {
        let c0 = bytes[start];
        let c1 = bytes[start + 1];
        if c0 == 106 && c1 == 102 {  // "jf"
            Opcode::JF
        } else if c0 == 106 && c1 == 98 {  // "jb"
            Opcode::JB
        } else if c0 == 101 && c1 == 113 {  // "eq"
            Opcode::EQ
        } else if c0 == 110 && c1 == 101 {  // "ne"
            Opcode::NE
        } else if c0 == 103 && c1 == 116 {  // "gt"
            Opcode::GT
        } else if c0 == 108 && c1 == 116 {  // "lt"
            Opcode::LT
        } else if c0 == 106 && c1 == 101 {  // "je"
            Opcode::JE
        } else {
            Opcode::ILL
        }
    } else if n == 3 {
        let c0 = bytes[start];
        let c1 = bytes[start + 1];
        let c2 = bytes[start + 2];
        if c0 == 112 && c1 == 97 && c2 == 100 {  // "pad"
            Opcode::PAD
        } else if c0 == 97 && c1 == 100 && c2 == 100 {  // "add"
            Opcode::ADD
        } else if c0 == 115 && c1 == 117 && c2 == 98 {  // "sub"
            Opcode::SUB
        } else if c0 == 109 && c1 == 117 && c2 == 108 {  // "mul"
            Opcode::MUL
        } else if c0 == 100 && c1 == 105 && c2 == 118 {  // "div"
            Opcode::DIV
        } else if c0 == 103 && c1 == 116 && c2 == 101 {  // "gte"
            Opcode::GTE
        } else if c0 == 108 && c1 == 116 && c2 == 101 {  // "lte"
            Opcode::LTE
        } else if c0 == 106 && c1 == 110 && c2 == 101 {  // "jne"
            Opcode::JNE
        } else if c0 == 105 && c1 == 110 && c2 == 99 {  // "inc"
            Opcode::INC
        } else if c0 == 100 && c1 == 101 && c2 == 99 {  // "dec"
            Opcode::DEC
        } else {
            Opcode::ILL
        }
    } else if n == 4 {
        let c0 = bytes[start];
        let c1 = bytes[start + 1];
        let c2 = bytes[start + 2];
        let c3 = bytes[start + 3];
        if c0 == 104 && c1 == 97 && c2 == 108 && c3 == 116 {  // "halt"
            Opcode::HALT
        } else if c0 == 108 && c1 == 111 && c2 == 97 && c3 == 100 {  // "load"
            Opcode::LOAD
        } else if c0 == 106 && c1 == 117 && c2 == 109 && c3 == 112 {  // "jump"
            Opcode::JUMP
        } else {
            Opcode::ILL
        }
    } else {
        Opcode::ILL
    }
}

impl<'a> core::convert::From<&'a str> for Opcode {
    /// The opcode a mnemonic names; any other string, non-ASCII ones
    /// included, maps to `ILL`.
    fn from(value: &'a str) -> (r: Opcode) {
        let bytes = value.as_bytes();
        let r = opcode_for_range(bytes, 0, bytes.len());
        proof {
            assert(bytes@.subrange(0, bytes@.len() as int) =~= bytes@);
        }
        r
    }
}

impl<'a> vstd::std_specs::convert::FromSpecImpl<&'a str> for Opcode {
    open spec fn obeys_from_spec() -> bool {
        true
    }

    open spec fn from_spec(v: &'a str) -> Opcode {
        opcode_of_name(v.spec_bytes())
    }
}

/// Decoding is a left inverse of encoding: every opcode, the `ILL` sentinel
/// included, survives a round trip through its byte encoding.
pub proof fn lemma_opcode_round_trip(op: Opcode)
    ensures
        opcode_from_byte(opcode_to_byte(op)) == op,
{
}

} // verus!
