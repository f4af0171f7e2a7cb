//! The instruction parser: one source line holds either the branch-to-label
//! shape — an opcode followed directly by a label usage — or the
//! register/immediate shape — an optional leading label declaration, an
//! opcode, and up to three operands. The branch-to-label shape is tried
//! first; this ordering is part of the grammar's contract.

use super::opcode_parsers::{opcode_parser, spec_opcode_parser};
use super::operand_parsers::{
    lemma_operand_parser_advances, operand_parser, spec_operand_parser,
};
use super::symbol_parsers::{
    label_decl_parser, label_usage_parser, lemma_symbol_parsers_advance, spec_label_decl_parser,
    spec_label_usage_parser,
};
use super::{
    clone_opt_token, lemma_instruction_emits_four_bytes, lemma_run_end_bounds, lookup_symbol,
    operand_encodes, operand_width, opt_token, opt_token_eq, emit_instruction, Error, Instruction,
    InstructionModel, SymbolModel, SymbolTable, Token, TokenModel,
};
use vstd::prelude::*;
use vstd::string::StringSliceAdditionalSpecFns;
use vstd::utf8::encode_utf8;

verus! {

broadcast use vstd::string::is_ascii_spec_bytes;

/// The mathematical value of a parsed instruction.
pub ghost struct AssemblerInstrModel {
    pub directive: Option<TokenModel>,
    pub label: Option<TokenModel>,
    pub opcode: Option<TokenModel>,
    pub operands: (Option<TokenModel>, Option<TokenModel>, Option<TokenModel>),
}

/// One parsed instruction of the first assembly phase: an optional
/// directive, an optional label — a declaration when the instruction is
/// prefixed by one, a usage when the instruction is the branch-to-label
/// shape — an opcode token, and up to three operand slots.
#[derive(Debug)]
pub struct AssemblerInstr {
    pub directive: Option<Token>,
    pub label: Option<Token>,
    pub opcode: Option<Token>,
    pub operands: (Option<Token>, Option<Token>, Option<Token>),
}

impl View for AssemblerInstr {
    type V = AssemblerInstrModel;

    open spec fn view(&self) -> AssemblerInstrModel {
        AssemblerInstrModel {
            directive: opt_token(self.directive),
            label: opt_token(self.label),
            opcode: opt_token(self.opcode),
            operands: (
                opt_token(self.operands.0),
                opt_token(self.operands.1),
                opt_token(self.operands.2),
            ),
        }
    }
}

impl core::cmp::PartialEq for AssemblerInstr {
    /// Two parsed instructions are equal when every slot holds an equal
    /// token.
    fn eq(&self, other: &AssemblerInstr) -> (r: bool) {
        opt_token_eq(&self.directive, &other.directive) && opt_token_eq(&self.label, &other.label)
            && opt_token_eq(&self.opcode, &other.opcode) && opt_token_eq(
            &self.operands.0,
            &other.operands.0,
        ) && opt_token_eq(&self.operands.1, &other.operands.1) && opt_token_eq(
            &self.operands.2,
            &other.operands.2,
        )
    }
}

impl vstd::std_specs::cmp::PartialEqSpecImpl for AssemblerInstr {
    open spec fn obeys_eq_spec() -> bool {
        true
    }

    open spec fn eq_spec(&self, other: &AssemblerInstr) -> bool {
        self@ == other@
    }
}

// ---------------------------------------------------------------------------
// Resolution: the second assembly phase's per-instruction step.
// ---------------------------------------------------------------------------

/// Resolve one operand slot against the symbol table: a label usage becomes
/// the integer literal holding the low 16 bits of the label's byte offset; a
/// usage of an undeclared label is `LabelNotFound`; everything else passes
/// through.
pub open spec fn resolve_operand(o: Option<TokenModel>, syms: Seq<SymbolModel>) -> Result<
    Option<TokenModel>,
    Error,
> {
    match o {
        Some(TokenModel::LabelUsage { name }) => match lookup_symbol(syms, name) {
            Some(off) => Ok(Some(TokenModel::Integer { value: (off % 65536) as i32 })),
            None => Err(Error::LabelNotFound),
        },
        _ => Ok(o),
    }
}

/// Resolve a parsed instruction against the symbol table. The branch-to-
/// label shape becomes its opcode with the resolved offset as its single
/// operand; otherwise each operand slot resolves on its own, left to right,
/// and the first failure wins. A leading label declaration plays no part
/// here — the first phase has already recorded it.
pub open spec fn resolve_instr(i: AssemblerInstrModel, syms: Seq<SymbolModel>) -> Result<
    InstructionModel,
    Error,
> {
    match i.label {
        Some(TokenModel::LabelUsage { name }) => match lookup_symbol(syms, name) {
            Some(off) => Ok(
                InstructionModel {
                    opcode: i.opcode,
                    operands: (
                        Some(TokenModel::Integer { value: (off % 65536) as i32 }),
                        None,
                        None,
                    ),
                },
            ),
            None => Err(Error::LabelNotFound),
        },
        _ => match resolve_operand(i.operands.0, syms) {
            Err(e) => Err(e),
            Ok(o0) => match resolve_operand(i.operands.1, syms) {
                Err(e) => Err(e),
                Ok(o1) => match resolve_operand(i.operands.2, syms) {
                    Err(e) => Err(e),
                    Ok(o2) => Ok(InstructionModel { opcode: i.opcode, operands: (o0, o1, o2) }),
                },
            },
        },
    }
}

/// Resolve one operand slot, as `resolve_operand` describes.
fn resolve_slot(o: &Option<Token>, symbols: &SymbolTable) -> (r: Result<Option<Token>, Error>)
    ensures
        (match resolve_operand(opt_token(*o), symbols@) {
            Ok(t) => r matches Ok(res) && opt_token(res) == t,
            Err(e) => r == Err::<Option<Token>, Error>(e),
        }),
{
    match o {
        Some(Token::LabelUsage { name }) => match symbols.lookup(name.as_str()) {
            Some(off) => Ok(Some(Token::Integer { value: (off % 65536) as i32 })),
            None => Err(Error::LabelNotFound),
        },
        _ => Ok(clone_opt_token(o)),
    }
}

impl AssemblerInstr {
    /// Build a parsed instruction from its slots.
    pub fn new(
        directive: Option<Token>,
        label: Option<Token>,
        opcode: Option<Token>,
        operands: (Option<Token>, Option<Token>, Option<Token>),
    ) -> (r: Self)
        ensures
            r == (AssemblerInstr { directive, label, opcode, operands }),
    {
        Self { directive, label, opcode, operands }
    }

    /// The name of the label this instruction declares, or
    /// `LabelNotExtracted` if it declares none.
    pub fn try_exrtact_label(&self) -> (r: Result<String, Error>)
        ensures
            (match self@.label {
                Some(TokenModel::LabelDecl { name }) => r matches Ok(s) && encode_utf8(s@) == name,
                _ => r == Err::<String, Error>(Error::LabelNotExtracted),
            }),
    {
        if let Some(Token::LabelDecl { name }) = &self.label {
            Ok(name.clone())
        } else {
            Err(Error::LabelNotExtracted)
        }
    }

    /// Resolve this instruction against the symbol table, as `resolve_instr`
    /// describes.
    pub fn resolve(&self, symbols: &SymbolTable) -> (r: Result<Instruction, Error>)
        ensures
            (match resolve_instr(self@, symbols@) {
                Ok(m) => r matches Ok(ins) && ins@ == m,
                Err(e) => r == Err::<Instruction, Error>(e),
            }),
    {
        if let Some(Token::LabelUsage { name }) = &self.label {
            match symbols.lookup(name.as_str()) {
                Some(off) => Ok(
                    Instruction {
                        opcode: clone_opt_token(&self.opcode),
                        operands: (Some(Token::Integer { value: (off % 65536) as i32 }), None, None),
                    },
                ),
                None => Err(Error::LabelNotFound),
            }
        } else {
            let o0 = match resolve_slot(&self.operands.0, symbols) {
                Ok(t) => t,
                Err(e) => {
                    return Err(e);
                },
            };
            let o1 = match resolve_slot(&self.operands.1, symbols) {
                Ok(t) => t,
                Err(e) => {
                    return Err(e);
                },
            };
            let o2 = match resolve_slot(&self.operands.2, symbols) {
                Ok(t) => t,
                Err(e) => {
                    return Err(e);
                },
            };
            Ok(Instruction { opcode: clone_opt_token(&self.opcode), operands: (o0, o1, o2) })
        }
    }
}

// ---------------------------------------------------------------------------
// The three instruction shapes.
// ---------------------------------------------------------------------------

/// One optional operand: a parsed operand and the position after it, or
/// nothing consumed.
pub open spec fn spec_opt_operand(s: Seq<u8>, pos: int) -> (Option<TokenModel>, int) {
    match spec_operand_parser(s, pos) {
        Some((t, end)) => (Some(t), end),
        None => (None, pos),
    }
}

/// What `parse_instr0` yields at `pos`: an opcode, one required operand, and
/// one optional operand.
pub open spec fn spec_parse_instr0(s: Seq<u8>, pos: int) -> Option<(AssemblerInstrModel, int)> {
    match spec_opcode_parser(s, pos) {
        None => None,
        Some((code, p1)) => match spec_operand_parser(s, p1) {
            None => None,
            Some((op0, p2)) => {
                let r1 = spec_opt_operand(s, p2);
                Some(
                    (
                        AssemblerInstrModel {
                            directive: None,
                            label: None,
                            opcode: Some(TokenModel::Op { code }),
                            operands: (Some(op0), r1.0, None),
                        },
                        r1.1,
                    ),
                )
            },
        },
    }
}

/// What `parse_instr1` yields at `pos`: an optional leading label
/// declaration, an opcode, and up to three optional operands.
pub open spec fn spec_parse_instr1(s: Seq<u8>, pos: int) -> Option<(AssemblerInstrModel, int)> {
    let ld = spec_label_decl_parser(s, pos);
    let lab = (match ld {
        Some(t) => Some(TokenModel::LabelDecl { name: t.0 }),
        None => None,
    });
    let p1 = (match ld {
        Some(t) => t.1,
        None => pos,
    });
    match spec_opcode_parser(s, p1) {
        None => None,
        Some((code, p2)) => {
            let r0 = spec_opt_operand(s, p2);
            let r1 = spec_opt_operand(s, r0.1);
            let r2 = spec_opt_operand(s, r1.1);
            Some(
                (
                    AssemblerInstrModel {
                        directive: None,
                        label: lab,
                        opcode: Some(TokenModel::Op { code }),
                        operands: (r0.0, r1.0, r2.0),
                    },
                    r2.1,
                ),
            )
        },
    }
}

/// What `parse_instr2` yields at `pos`: the branch-to-label shape, an opcode
/// followed directly by a label usage and nothing else.
pub open spec fn spec_parse_instr2(s: Seq<u8>, pos: int) -> Option<(AssemblerInstrModel, int)> {
    match spec_opcode_parser(s, pos) {
        None => None,
        Some((code, p1)) => match spec_label_usage_parser(s, p1) {
            None => None,
            Some((name, p2)) => Some(
                (
                    AssemblerInstrModel {
                        directive: None,
                        label: Some(TokenModel::LabelUsage { name }),
                        opcode: Some(TokenModel::Op { code }),
                        operands: (None, None, None),
                    },
                    p2,
                ),
            ),
        },
    }
}

/// What `parse_instr` yields at `pos`: the first shape that matches, the
/// branch-to-label shape tried before the register/immediate shapes.
pub open spec fn spec_parse_instr(s: Seq<u8>, pos: int) -> Option<(AssemblerInstrModel, int)> {
    match spec_parse_instr2(s, pos) {
        Some(t) => Some(t),
        None => match spec_parse_instr1(s, pos) {
            Some(t) => Some(t),
            None => spec_parse_instr0(s, pos),
        },
    }
}

/// A successful instruction parse consumes at least one byte and stays
/// inside the input.
pub proof fn lemma_parse_instr_advances(s: Seq<u8>, pos: int)
    requires
        0 <= pos <= s.len(),
    ensures
        spec_parse_instr0(s, pos) matches Some(t) ==> pos < t.1 <= s.len(),
        spec_parse_instr1(s, pos) matches Some(t) ==> pos < t.1 <= s.len(),
        spec_parse_instr2(s, pos) matches Some(t) ==> pos < t.1 <= s.len(),
        spec_parse_instr(s, pos) matches Some(t) ==> pos < t.1 <= s.len(),
{
    lemma_run_end_bounds(s, pos);
    lemma_symbol_parsers_advance(s, pos);
    match spec_opcode_parser(s, pos) {
        Some(t0) => {
            let p1 = t0.1;
            lemma_symbol_parsers_advance(s, p1);
            lemma_operand_parser_advances(s, p1);
            match spec_operand_parser(s, p1) {
                Some(t2) => {
                    lemma_operand_parser_advances(s, t2.1);
                },
                None => {},
            }
        },
        None => {},
    }
    let ld = spec_label_decl_parser(s, pos);
    let p1 = (match ld {
        Some(t) => t.1,
        None => pos,
    });
    lemma_run_end_bounds(s, p1);
    match spec_opcode_parser(s, p1) {
        Some(t1) => {
            let p2 = t1.1;
            lemma_operand_parser_advances(s, p2);
            let r0 = spec_opt_operand(s, p2);
            lemma_operand_parser_advances(s, r0.1);
            let r1 = spec_opt_operand(s, r0.1);
            lemma_operand_parser_advances(s, r1.1);
        },
        None => {},
    }
}

/// Whatever shape the grammar produced, once resolution against a symbol
/// table succeeds, the resolved instruction carries an opcode at its head
/// and only encodable operands — registers and integer literals — so it
/// emits exactly four bytes whenever its operands fit the three operand
/// bytes of the instruction slot.
pub proof fn lemma_parsed_instruction_emits_four_bytes(
    s: Seq<u8>,
    pos: int,
    syms: Seq<SymbolModel>,
)
    requires
        0 <= pos <= s.len(),
        (spec_parse_instr(s, pos) matches Some(t) && resolve_instr(t.0, syms) matches Ok(ins)
            && operand_width(ins.operands.0) + operand_width(ins.operands.1) + operand_width(
            ins.operands.2,
        ) <= 3),
    ensures
        (spec_parse_instr(s, pos) matches Some(t) && resolve_instr(t.0, syms) matches Ok(ins)
            && emit_instruction(ins) matches Ok(bs) && bs.len() == 4),
{
    let m = spec_parse_instr(s, pos)->Some_0.0;
    let ins = resolve_instr(m, syms)->Ok_0;
    assert(m.opcode matches Some(t) && t is Op);
    assert(operand_encodes(m.operands.0) && operand_encodes(m.operands.1) && operand_encodes(
        m.operands.2,
    ));
    assert(operand_encodes(ins.operands.0) && operand_encodes(ins.operands.1) && operand_encodes(
        ins.operands.2,
    ));
    lemma_instruction_emits_four_bytes(ins);
}

/// One optional operand, as `spec_opt_operand` describes; the position never
/// moves backward or past the end.
fn opt_operand(input: &str, pos: usize) -> (r: (Option<Token>, usize))
    requires
        input.is_ascii(),
        pos <= input.spec_bytes().len(),
    ensures
        opt_token(r.0) == spec_opt_operand(input.spec_bytes(), pos as int).0,
        r.1 as int == spec_opt_operand(input.spec_bytes(), pos as int).1,
        pos <= r.1 <= input.spec_bytes().len(),
{
    proof {
        lemma_operand_parser_advances(input.spec_bytes(), pos as int);
    }
    match operand_parser(input, pos) {
        Some((t, end)) => (Some(t), end),
        None => (None, pos),
    }
}

/// Parse the register/immediate shape without a leading label, requiring at
/// least one operand, as `spec_parse_instr0` describes.
pub fn parse_instr0(input: &str, pos: usize) -> (r: Option<(AssemblerInstr, usize)>)
    requires
        input.is_ascii(),
        pos <= input.spec_bytes().len(),
    ensures
        (match spec_parse_instr0(input.spec_bytes(), pos as int) {
            Some((m, end)) => r matches Some(t) && t.0@ == m && t.1 == end,
            None => r is None,
        }),
{
    proof {
        lemma_run_end_bounds(input.spec_bytes(), pos as int);
    }
    match opcode_parser(input, pos) {
        None => None,
        Some((op, p1)) => {
            proof {
                lemma_operand_parser_advances(input.spec_bytes(), p1 as int);
            }
            match operand_parser(input, p1) {
                None => None,
                Some((op0, p2)) => {
                    let (op1, p3) = opt_operand(input, p2);
                    Some(
                        (
                            AssemblerInstr {
                                directive: None,
                                label: None,
                                opcode: Some(op),
                                operands: (Some(op0), op1, None),
                            },
                            p3,
                        ),
                    )
                },
            }
        },
    }
}

/// Parse the register/immediate shape — optional leading label declaration,
/// opcode, up to three operands — as `spec_parse_instr1` describes.
pub fn parse_instr1(input: &str, pos: usize) -> (r: Option<(AssemblerInstr, usize)>)
    requires
        input.is_ascii(),
        pos <= input.spec_bytes().len(),
    ensures
        (match spec_parse_instr1(input.spec_bytes(), pos as int) {
            Some((m, end)) => r matches Some(t) && t.0@ == m && t.1 == end,
            None => r is None,
        }),
{
    proof {
        lemma_symbol_parsers_advance(input.spec_bytes(), pos as int);
    }
    let (label, p1) = match label_decl_parser(input, pos) {
        Some((t, e)) => (Some(t), e),
        None => (None, pos),
    };
    proof {
        lemma_run_end_bounds(input.spec_bytes(), p1 as int);
    }
    match opcode_parser(input, p1) {
        None => None,
        Some((op, p2)) => {
            let (o0, p3) = opt_operand(input, p2);
            let (o1, p4) = opt_operand(input, p3);
            let (o2, p5) = opt_operand(input, p4);
            Some(
                (
                    AssemblerInstr {
                        directive: None,
                        label,
                        opcode: Some(op),
                        operands: (o0, o1, o2),
                    },
                    p5,
                ),
            )
        },
    }
}

/// Parse the branch-to-label shape — an opcode followed directly by a label
/// usage — as `spec_parse_instr2` describes.
pub fn parse_instr2(input: &str, pos: usize) -> (r: Option<(AssemblerInstr, usize)>)
    requires
        input.is_ascii(),
        pos <= input.spec_bytes().len(),
    ensures
        (match spec_parse_instr2(input.spec_bytes(), pos as int) {
            Some((m, end)) => r matches Some(t) && t.0@ == m && t.1 == end,
            None => r is None,
        }),
{
    proof {
        lemma_run_end_bounds(input.spec_bytes(), pos as int);
    }
    match opcode_parser(input, pos) {
        None => None,
        Some((op, p1)) => match label_usage_parser(input, p1) {
            None => None,
            Some((usage, p2)) => Some(
                (
                    AssemblerInstr {
                        directive: None,
                        label: Some(usage),
                        opcode: Some(op),
                        operands: (None, None, None),
                    },
                    p2,
                ),
            ),
        },
    }
}

/// Parse one instruction: the branch-to-label shape first, then the
/// register/immediate shapes, as `spec_parse_instr` describes.
pub fn parse_instr(input: &str, pos: usize) -> (r: Option<(AssemblerInstr, usize)>)
    requires
        input.is_ascii(),
        pos <= input.spec_bytes().len(),
    ensures
        (match spec_parse_instr(input.spec_bytes(), pos as int) {
            Some((m, end)) => r matches Some(t) && t.0@ == m && t.1 == end,
            None => r is None,
        }),
{
    match parse_instr2(input, pos) {
        Some(t) => Some(t),
        None => match parse_instr1(input, pos) {
            Some(t) => Some(t),
            None => parse_instr0(input, pos),
        },
    }
}

} // verus!
