//! The assembler: tokens, instructions, the symbol table, and the two
//! assembly phases that take source text to the machine's four-byte
//! instruction encoding.
//!
//! The source language is ASCII and line-oriented. Contracts describe the
//! text through its byte sequence (`spec_bytes`), so every grammar rule is a
//! statement about bytes; token names are carried as `String`s whose bytes
//! are a slice of the input.

use self::instruction_parsers::{resolve_instr, AssemblerInstr, AssemblerInstrModel};
use self::program_parsers::{lemma_spec_instrs_bounds, spec_program_parser};
use crate::opcodes::{opcode_to_byte, Opcode};
use vstd::prelude::*;
use vstd::string::StringSliceAdditionalSpecFns;
use vstd::utf8::encode_utf8;

pub mod instruction_parsers;
pub mod opcode_parsers;
pub mod operand_parsers;
pub mod program_parsers;
pub mod symbol_parsers;

verus! {

broadcast use vstd::string::is_ascii_spec_bytes;

/// What assembly can report: a source text the grammar rejects, a non-opcode
/// token at the head of an instruction, an operand slot holding a token of
/// the wrong kind or operands overflowing the instruction's three operand
/// bytes, a label used but nowhere declared, and a label asked of an
/// instruction that declares none.
#[derive(Debug, Clone, Copy, PartialEq, Eq, Structural)]
pub enum Error {
    ParseError,
    NotOpcode,
    OpcodeOperand,
    LabelNotFound,
    LabelNotExtracted,
}

/// The mathematical value of a token; names are byte sequences of the
/// source.
pub ghost enum TokenModel {
    Op { code: Opcode },
    Register { index: u8 },
    Integer { value: i32 },
    LabelDecl { name: Seq<u8> },
    LabelUsage { name: Seq<u8> },
    Directive { name: Seq<u8> },
}

/// One lexical element of the source language: an opcode mnemonic, a
/// register operand, an integer-literal operand, a label declaration, a
/// label usage, or a directive.
#[derive(Debug)]
pub enum Token {
    Op { code: Opcode },
    Register { index: u8 },
    Integer { value: i32 },
    LabelDecl { name: String },
    LabelUsage { name: String },
    Directive { name: String },
}

impl View for Token {
    type V = TokenModel;

    open spec fn view(&self) -> TokenModel {
        match self {
            Token::Op { code } => TokenModel::Op { code: *code },
            Token::Register { index } => TokenModel::Register { index: *index },
            Token::Integer { value } => TokenModel::Integer { value: *value },
            Token::LabelDecl { name } => TokenModel::LabelDecl { name: encode_utf8(name@) },
            Token::LabelUsage { name } => TokenModel::LabelUsage { name: encode_utf8(name@) },
            Token::Directive { name } => TokenModel::Directive { name: encode_utf8(name@) },
        }
    }
}

/// The model of an optional token.
pub open spec fn opt_token(o: Option<Token>) -> Option<TokenModel> {
    match o {
        Some(t) => Some(t@),
        None => None,
    }
}

impl core::clone::Clone for Token {
    /// A clone carries the same kind and the same value or name.
    fn clone(&self) -> (r: Token)
        ensures
            r@ == self@,
    {
        match self {
            Token::Op { code } => Token::Op { code: *code },
            Token::Register { index } => Token::Register { index: *index },
            Token::Integer { value } => Token::Integer { value: *value },
            Token::LabelDecl { name } => Token::LabelDecl { name: name.clone() },
            Token::LabelUsage { name } => Token::LabelUsage { name: name.clone() },
            Token::Directive { name } => Token::Directive { name: name.clone() },
        }
    }
}

/// UTF-8 encoding is injective: two character sequences encode to the same
/// bytes exactly when they are the same.
pub proof fn lemma_encode_utf8_injective(a: Seq<char>, b: Seq<char>)
    ensures
        (encode_utf8(a) == encode_utf8(b)) <==> (a == b),
{
    vstd::utf8::encode_utf8_decode_utf8(a);
    vstd::utf8::encode_utf8_decode_utf8(b);
}

impl core::cmp::PartialEq for Token {
    /// Two tokens are equal when they are the same kind and carry the same
    /// value or name.
    fn eq(&self, other: &Token) -> (r: bool) {
        proof {
            match (self, other) {
                (Token::LabelDecl { name: a }, Token::LabelDecl { name: b }) => {
                    lemma_encode_utf8_injective(a@, b@);
                },
                (Token::LabelUsage { name: a }, Token::LabelUsage { name: b }) => {
                    lemma_encode_utf8_injective(a@, b@);
                },
                (Token::Directive { name: a }, Token::Directive { name: b }) => {
                    lemma_encode_utf8_injective(a@, b@);
                },
                _ => {},
            }
        }
        match (self, other) {
            (Token::Op { code: a }, Token::Op { code: b }) => *a == *b,
            (Token::Register { index: a }, Token::Register { index: b }) => *a == *b,
            (Token::Integer { value: a }, Token::Integer { value: b }) => *a == *b,
            (Token::LabelDecl { name: a }, Token::LabelDecl { name: b }) => *a == *b,
            (Token::LabelUsage { name: a }, Token::LabelUsage { name: b }) => *a == *b,
            (Token::Directive { name: a }, Token::Directive { name: b }) => *a == *b,
            _ => false,
        }
    }
}

impl vstd::std_specs::cmp::PartialEqSpecImpl for Token {
    open spec fn obeys_eq_spec() -> bool {
        true
    }

    open spec fn eq_spec(&self, other: &Token) -> bool {
        self@ == other@
    }
}

/// Whether two optional tokens hold equal tokens.
pub(crate) fn opt_token_eq(a: &Option<Token>, b: &Option<Token>) -> (r: bool)
    ensures
        r == (opt_token(*a) == opt_token(*b)),
{
    match (a, b) {
        (None, None) => true,
        (Some(x), Some(y)) => x == y,
        _ => false,
    }
}

// ---------------------------------------------------------------------------
// Byte classes and runs of the source language.
// ---------------------------------------------------------------------------

/// An ASCII letter.
pub open spec fn is_alpha(b: u8) -> bool {
    (97 <= b && b <= 122) || (65 <= b && b <= 90)  // 'a'..'z', 'A'..'Z'
}

/// An ASCII decimal digit.
pub open spec fn is_digit(b: u8) -> bool {
    48 <= b && b <= 57  // '0'..'9'
}

/// Whitespace that may trail the final instruction: space, tab, newline,
/// carriage return.
pub open spec fn is_white(b: u8) -> bool {
    b == 32 || b == 9 || b == 10 || b == 13
}

/// The position of the first non-letter at or after `pos`.
pub open spec fn alpha_run_end(s: Seq<u8>, pos: int) -> int
    decreases s.len() - pos,
{
    if pos < 0 || pos >= s.len() {
        pos
    } else if is_alpha(s[pos]) {
        alpha_run_end(s, pos + 1)
    } else {
        pos
    }
}

/// The position of the first non-digit at or after `pos`.
pub open spec fn digit_run_end(s: Seq<u8>, pos: int) -> int
    decreases s.len() - pos,
{
    if pos < 0 || pos >= s.len() {
        pos
    } else if is_digit(s[pos]) {
        digit_run_end(s, pos + 1)
    } else {
        pos
    }
}

/// The decimal value of the digits in `s[pos .. end)`.
pub open spec fn digits_value(s: Seq<u8>, pos: int, end: int) -> int
    decreases end - pos,
{
    if pos >= end {
        0
    } else {
        digits_value(s, pos, end - 1) * 10 + (s[end - 1] - 48)
    }
}

/// A run end never moves backward and never passes the end of the input.
pub proof fn lemma_run_end_bounds(s: Seq<u8>, pos: int)
    requires
        0 <= pos <= s.len(),
    ensures
        pos <= alpha_run_end(s, pos) <= s.len(),
        pos <= digit_run_end(s, pos) <= s.len(),
    decreases s.len() - pos,
{
    if pos < s.len() {
        lemma_run_end_bounds(s, pos + 1);
    }
}

/// Everything strictly inside a digit run is a digit.
pub proof fn lemma_digit_run_chars(s: Seq<u8>, pos: int, i: int)
    requires
        0 <= pos <= s.len(),
        pos <= i < digit_run_end(s, pos),
    ensures
        is_digit(s[i]),
    decreases i - pos,
{
    lemma_run_end_bounds(s, pos);
    if i > pos {
        lemma_digit_run_chars(s, pos + 1, i);
    }
}

/// The value of a digit run is never negative.
pub proof fn lemma_digits_value_nonneg(s: Seq<u8>, pos: int, end: int)
    requires
        forall|i: int| pos <= i < end ==> is_digit(#[trigger] s[i]),
    ensures
        digits_value(s, pos, end) >= 0,
    decreases end - pos,
{
    if pos < end {
        lemma_digits_value_nonneg(s, pos, end - 1);
    }
}

/// Extending a digit run to the right never shrinks its value.
pub proof fn lemma_digits_value_mono(s: Seq<u8>, pos: int, mid: int, end: int)
    requires
        pos <= mid <= end,
        forall|i: int| pos <= i < end ==> is_digit(#[trigger] s[i]),
    ensures
        digits_value(s, pos, end) >= digits_value(s, pos, mid),
    decreases end - mid,
{
    if mid < end {
        lemma_digits_value_nonneg(s, pos, end - 1);
        lemma_digits_value_mono(s, pos, mid, end - 1);
    }
}

/// For an ASCII string, the UTF-8 bytes of a span of characters are exactly
/// the same span of the string's bytes.
pub proof fn lemma_substring_bytes(s: &str, from: int, to: int)
    requires
        s.is_ascii(),
        0 <= from <= to <= s@.len(),
    ensures
        vstd::utf8::is_ascii_chars(s@.subrange(from, to)),
        encode_utf8(s@.subrange(from, to)) =~= s.spec_bytes().subrange(from, to),
{
    broadcast use vstd::utf8::is_ascii_chars_encode_utf8;

    let sub = s@.subrange(from, to);
    assert(vstd::utf8::is_ascii_chars(s@));
    assert forall|i: int| 0 <= i < sub.len() implies '\0' <= #[trigger] sub[i] <= '\u{7f}' by {
        assert(sub[i] == s@[from + i]);
    }
    assert(vstd::utf8::is_ascii_chars(sub));
    assert forall|i: int| 0 <= i < sub.len() implies encode_utf8(sub)[i] == s.spec_bytes().subrange(
        from,
        to,
    )[i] by {
        assert(encode_utf8(sub)[i] == sub[i] as u8);
        assert(s.spec_bytes()[from + i] == s@[from + i] as u8);
    }
}

// ---------------------------------------------------------------------------
// Executable scanning helpers.
// ---------------------------------------------------------------------------

/// Decide `is_alpha` on a byte.
pub(crate) fn is_alpha_byte(b: u8) -> (r: bool)
    ensures
        r == is_alpha(b),
{
    (97 <= b && b <= 122) || (65 <= b && b <= 90)
}

/// Decide `is_digit` on a byte.
pub(crate) fn is_digit_byte(b: u8) -> (r: bool)
    ensures
        r == is_digit(b),
{
    48 <= b && b <= 57
}

/// Decide `is_white` on a byte.
pub(crate) fn is_white_byte(b: u8) -> (r: bool)
    ensures
        r == is_white(b),
{
    b == 32 || b == 9 || b == 10 || b == 13
}

/// Scan the letter run starting at `pos`.
pub(crate) fn scan_alpha(bytes: &[u8], pos: usize) -> (end: usize)
    requires
        pos <= bytes@.len(),
    ensures
        end == alpha_run_end(bytes@, pos as int),
        pos <= end <= bytes@.len(),
{
    let mut i = pos;
    proof {
        lemma_run_end_bounds(bytes@, pos as int);
    }
    while i < bytes.len() && is_alpha_byte(bytes[i])
        invariant
            pos <= i <= bytes@.len(),
            alpha_run_end(bytes@, pos as int) == alpha_run_end(bytes@, i as int),
        decreases bytes@.len() - i,
    {
        i = i + 1;
    }
    i
}

/// Scan the digit run starting at `pos`.
pub(crate) fn scan_digits(bytes: &[u8], pos: usize) -> (end: usize)
    requires
        pos <= bytes@.len(),
    ensures
        end == digit_run_end(bytes@, pos as int),
        pos <= end <= bytes@.len(),
{
    let mut i = pos;
    proof {
        lemma_run_end_bounds(bytes@, pos as int);
    }
    while i < bytes.len() && is_digit_byte(bytes[i])
        invariant
            pos <= i <= bytes@.len(),
            digit_run_end(bytes@, pos as int) == digit_run_end(bytes@, i as int),
        decreases bytes@.len() - i,
    {
        i = i + 1;
    }
    i
}

/// Evaluate the digit run `bytes[start .. end)` as a decimal number, bounded
/// by `cap`: `None` exactly when the run's value exceeds `cap`.
pub(crate) fn digits_value_capped(bytes: &[u8], start: usize, end: usize, cap: u64) -> (r: Option<
    u64,
>)
    requires
        start <= end <= bytes@.len(),
        cap <= 0x8000_0000,
        forall|i: int| start <= i < end ==> is_digit(#[trigger] bytes@[i]),
    ensures
        digits_value(bytes@, start as int, end as int) <= cap ==> (r matches Some(v) && v
            == digits_value(bytes@, start as int, end as int)),
        digits_value(bytes@, start as int, end as int) > cap ==> r is None,
{
    let mut acc: u64 = 0;
    let mut i = start;
    while i < end
        invariant
            start <= i <= end <= bytes@.len(),
            cap <= 0x8000_0000,
            forall|k: int| start <= k < end ==> is_digit(#[trigger] bytes@[k]),
            acc == digits_value(bytes@, start as int, i as int),
            acc <= cap,
        decreases end - i,
    {
        let d = bytes[i];
        proof {
            lemma_digits_value_nonneg(bytes@, start as int, i as int);
        }
        let next = acc * 10 + ((d - 48) as u64);
        proof {
            assert(next == digits_value(bytes@, start as int, i + 1));
        }
        if next > cap {
            proof {
                lemma_digits_value_mono(bytes@, start as int, i + 1, end as int);
            }
            return None;
        }
        acc = next;
        i = i + 1;
    }
    Some(acc)
}

/// Whether two byte slices hold the same bytes.
pub(crate) fn bytes_eq(a: &[u8], b: &[u8]) -> (r: bool)
    ensures
        r == (a@ == b@),
{
    if a.len() != b.len() {
        return false;
    }
    let mut i: usize = 0;
    while i < a.len()
        invariant
            i <= a@.len(),
            a@.len() == b@.len(),
            forall|k: int| 0 <= k < i ==> a@[k] == b@[k],
        decreases a@.len() - i,
    {
        if a[i] != b[i] {
            return false;
        }
        i = i + 1;
    }
    proof {
        assert(a@ =~= b@);
    }
    true
}

// ---------------------------------------------------------------------------
// Instruction emission: the second assembly phase's per-instruction step.
// ---------------------------------------------------------------------------

/// The nonnegative remainder of `x` modulo 65536.
pub open spec fn mod16(x: int) -> int {
    let r = x % 65536;
    if r < 0 {
        r + 65536
    } else {
        r
    }
}

/// The low 16 bits of a signed operand value: integer operands narrow to 16
/// bits when encoded.
pub open spec fn u16_of_i32(v: i32) -> u16 {
    mod16(v as int) as u16
}

/// The low 16 bits of a signed value, as the emitter narrows integer
/// operands.
pub(crate) fn low16(value: i32) -> (r: u16)
    ensures
        r == u16_of_i32(value),
{
    let w = 0u32.wrapping_add_signed(value);
    proof {
        if value < 0 {
            vstd::arithmetic::div_mod::lemma_mod_multiples_vanish(65536, value as int, 65536);
        }
    }
    (w % 65536) as u16
}

/// The bytes one operand contributes: a register index is one byte, an
/// integer literal is its low 16 bits big-endian; any other token is a hard
/// emission error.
pub open spec fn emit_operand(t: TokenModel) -> Result<Seq<u8>, Error> {
    match t {
        TokenModel::Register { index } => Ok(seq![index]),
        TokenModel::Integer { value } => Ok(
            seq![(u16_of_i32(value) / 256) as u8, (u16_of_i32(value) % 256) as u8],
        ),
        _ => Err(Error::OpcodeOperand),
    }
}

/// The bytes a list of operand slots contributes, left to right, empty slots
/// skipped; the first bad operand's error wins.
pub open spec fn emit_operands(ops: Seq<Option<TokenModel>>) -> Result<Seq<u8>, Error>
    decreases ops.len(),
{
    if ops.len() == 0 {
        Ok(Seq::empty())
    } else {
        match ops[0] {
            None => emit_operands(ops.drop_first()),
            Some(t) => match emit_operand(t) {
                Err(e) => Err(e),
                Ok(bs) => match emit_operands(ops.drop_first()) {
                    Err(e) => Err(e),
                    Ok(rest) => Ok(bs + rest),
                },
            },
        }
    }
}

/// Zero-pad an encoding on the right up to the four-byte instruction width;
/// an encoding already at least four bytes long is left alone.
pub open spec fn pad4(bs: Seq<u8>) -> Seq<u8> {
    if bs.len() >= 4 {
        bs
    } else {
        bs + Seq::new((4 - bs.len()) as nat, |i: int| 0u8)
    }
}

/// How many encoded bytes one operand slot occupies.
pub open spec fn operand_width(o: Option<TokenModel>) -> int {
    match o {
        None => 0,
        Some(TokenModel::Register { .. }) => 1,
        Some(TokenModel::Integer { .. }) => 2,
        Some(_) => 0,
    }
}

/// The mathematical value of a resolved instruction.
pub ghost struct InstructionModel {
    pub opcode: Option<TokenModel>,
    pub operands: (Option<TokenModel>, Option<TokenModel>, Option<TokenModel>),
}

/// The bytes a resolved instruction emits: its opcode byte, its operand
/// bytes left to right, zero-padded to the four-byte width. A missing or
/// non-opcode head is `NotOpcode`; a token of the wrong kind in an operand
/// slot, or operands that together overflow the three operand bytes, is
/// `OpcodeOperand` — so a successful emission is always exactly four bytes,
/// never more.
pub open spec fn emit_instruction(i: InstructionModel) -> Result<Seq<u8>, Error> {
    match i.opcode {
        Some(TokenModel::Op { code }) => match emit_operands(
            seq![i.operands.0, i.operands.1, i.operands.2],
        ) {
            Err(e) => Err(e),
            Ok(bs) => if bs.len() > 3 {
                Err(Error::OpcodeOperand)
            } else {
                Ok(pad4(seq![opcode_to_byte(code)] + bs))
            },
        },
        _ => Err(Error::NotOpcode),
    }
}

/// An instruction of the second assembly phase: an opcode token and up to
/// three operand slots, every label already resolved to a plain value.
#[derive(Debug)]
pub struct Instruction {
    pub opcode: Option<Token>,
    pub operands: (Option<Token>, Option<Token>, Option<Token>),
}

impl View for Instruction {
    type V = InstructionModel;

    open spec fn view(&self) -> InstructionModel {
        InstructionModel {
            opcode: opt_token(self.opcode),
            operands: (
                opt_token(self.operands.0),
                opt_token(self.operands.1),
                opt_token(self.operands.2),
            ),
        }
    }
}

impl core::cmp::PartialEq for Instruction {
    /// Two instructions are equal when their opcode slots and operand slots
    /// hold equal tokens.
    fn eq(&self, other: &Instruction) -> (r: bool) {
        opt_token_eq(&self.opcode, &other.opcode) && opt_token_eq(
            &self.operands.0,
            &other.operands.0,
        ) && opt_token_eq(&self.operands.1, &other.operands.1) && opt_token_eq(
            &self.operands.2,
            &other.operands.2,
        )
    }
}

impl vstd::std_specs::cmp::PartialEqSpecImpl for Instruction {
    open spec fn obeys_eq_spec() -> bool {
        true
    }

    open spec fn eq_spec(&self, other: &Instruction) -> bool {
        self@ == other@
    }
}

impl Instruction {
    /// Build an instruction from its opcode token and operand slots.
    pub fn new(
        opcode: Option<Token>,
        operands: (Option<Token>, Option<Token>, Option<Token>),
    ) -> (r: Self)
        ensures
            r == (Instruction { opcode, operands }),
    {
        Self { opcode, operands }
    }

    /// Append the encoding of one operand token to `parsed`, as
    /// `emit_operand` describes it.
    fn extract_operand(token: &Token, parsed: &mut Vec<u8>) -> (r: Result<(), Error>)
        ensures
            match emit_operand(token@) {
                Ok(bs) => r == Ok::<(), Error>(()) && final(parsed)@ == old(parsed)@ + bs,
                Err(e) => r == Err::<(), Error>(e) && final(parsed)@ == old(parsed)@,
            },
    {
        match token {
            Token::Register { index } => {
                parsed.push(*index);
                proof {
                    assert(parsed@ =~= old(parsed)@ + seq![token@->Register_index]);
                }
            },
            Token::Integer { value } => {
                let converted = low16(*value);
                parsed.push((converted / 256) as u8);
                parsed.push((converted % 256) as u8);
                proof {
                    assert(parsed@ =~= old(parsed)@ + seq![
                        (u16_of_i32(token@->Integer_value) / 256) as u8,
                        (u16_of_i32(token@->Integer_value) % 256) as u8,
                    ]);
                }
            },
            _ => {
                return Err(Error::OpcodeOperand);
            },
        };
        Ok(())
    }

    /// Append the encodings of three operand slots to `parsed`, left to
    /// right, as `emit_operands` describes; on the first bad operand, that
    /// operand's error.
    fn extract_operands(
        o0: &Option<Token>,
        o1: &Option<Token>,
        o2: &Option<Token>,
        parsed: &mut Vec<u8>,
    ) -> (r: Result<(), Error>)
        ensures
            (match emit_operands(seq![opt_token(*o0), opt_token(*o1), opt_token(*o2)]) {
                Ok(bs) => r == Ok::<(), Error>(()) && final(parsed)@ == old(parsed)@ + bs,
                Err(e) => r == Err::<(), Error>(e),
            }),
    {
        let ghost ops = seq![opt_token(*o0), opt_token(*o1), opt_token(*o2)];
        proof {
            reveal_with_fuel(emit_operands, 4);
            assert(ops.drop_first() =~= seq![opt_token(*o1), opt_token(*o2)]);
            assert(ops.drop_first().drop_first() =~= seq![opt_token(*o2)]);
            assert(ops.drop_first().drop_first().drop_first() =~= Seq::<
                Option<TokenModel>,
            >::empty());
        }
        if let Some(token) = o0 {
            match Instruction::extract_operand(token, parsed) {
                Ok(_) => {},
                Err(e) => {
                    return Err(e);
                },
            }
        }
        if let Some(token) = o1 {
            match Instruction::extract_operand(token, parsed) {
                Ok(_) => {},
                Err(e) => {
                    return Err(e);
                },
            }
        }
        if let Some(token) = o2 {
            match Instruction::extract_operand(token, parsed) {
                Ok(_) => {},
                Err(e) => {
                    return Err(e);
                },
            }
        }
        proof {
            assert(parsed@ =~= old(parsed)@ + emit_operands(ops)->Ok_0);
        }
        Ok(())
    }

    /// Emit this instruction's four bytes, exactly as `emit_instruction`
    /// describes them; operands that overflow the three operand bytes are
    /// the hard error `OpcodeOperand`.
    pub fn to_bytes(&self) -> (r: Result<Vec<u8>, Error>)
        ensures
            match emit_instruction(self@) {
                Ok(bs) => r matches Ok(v) && v@ == bs,
                Err(e) => r == Err::<Vec<u8>, Error>(e),
            },
    {
        let mut parsed: Vec<u8> = Vec::new();
        match &self.opcode {
            Some(Token::Op { code }) => {
                parsed.push(code.to_byte());
            },
            _ => {
                return Err(Error::NotOpcode);
            },
        }
        let ghost head = seq![opcode_to_byte(self@.opcode->Some_0->Op_code)];
        proof {
            assert(parsed@ =~= head);
        }
        match Instruction::extract_operands(
            &self.operands.0,
            &self.operands.1,
            &self.operands.2,
            &mut parsed,
        ) {
            Ok(_) => {},
            Err(e) => {
                return Err(e);
            },
        }
        if parsed.len() > 4 {
            return Err(Error::OpcodeOperand);
        }
        let ghost base = parsed@;
        while parsed.len() < 4
            invariant
                parsed@.len() >= base.len(),
                parsed@.len() == base.len() || parsed@.len() <= 4,
                parsed@ =~= base + Seq::new((parsed@.len() - base.len()) as nat, |i: int| 0u8),
            decreases 4 - parsed@.len(),
        {
            parsed.push(0);
            proof {
                assert(parsed@ =~= base + Seq::new(
                    (parsed@.len() - base.len()) as nat,
                    |i: int| 0u8,
                ));
            }
        }
        proof {
            assert(parsed@ =~= pad4(base));
        }
        Ok(parsed)
    }
}

// ---------------------------------------------------------------------------
// The symbol table: the first assembly phase's product.
// ---------------------------------------------------------------------------

/// What a symbol names: a label or a directive.
#[derive(Debug, Clone, Copy, PartialEq, Eq, Structural)]
pub enum SymbolKind {
    Label,
    Directive,
}

/// The mathematical value of a symbol.
pub ghost struct SymbolModel {
    pub name: Seq<u8>,
    pub kind: SymbolKind,
    pub offset: int,
}

/// A named marker bound to a byte offset of the program.
#[derive(Debug)]
pub struct Symbol {
    pub name: String,
    pub kind: SymbolKind,
    pub offset: usize,
}

impl View for Symbol {
    type V = SymbolModel;

    open spec fn view(&self) -> SymbolModel {
        SymbolModel {
            name: encode_utf8(self.name@),
            kind: self.kind,
            offset: self.offset as int,
        }
    }
}

/// The offset bound to `name` in `syms`, if any; when a name is declared
/// more than once, the last declaration wins.
pub open spec fn lookup_symbol(syms: Seq<SymbolModel>, name: Seq<u8>) -> Option<int>
    decreases syms.len(),
{
    if syms.len() == 0 {
        None
    } else if syms.last().name == name {
        Some(syms.last().offset)
    } else {
        lookup_symbol(syms.drop_last(), name)
    }
}

/// The table of symbols collected by the first assembly phase, in the order
/// they were declared.
#[derive(Debug)]
pub struct SymbolTable {
    pub symbols: Vec<Symbol>,
}

impl View for SymbolTable {
    type V = Seq<SymbolModel>;

    open spec fn view(&self) -> Seq<SymbolModel> {
        self.symbols@.map_values(|s: Symbol| s@)
    }
}

impl SymbolTable {
    /// An empty table.
    pub fn new() -> (r: SymbolTable)
        ensures
            r@ =~= Seq::<SymbolModel>::empty(),
    {
        SymbolTable { symbols: Vec::new() }
    }

    /// Find the offset bound to `name`, as `lookup_symbol` describes: the
    /// last declaration of the name wins, and an undeclared name finds
    /// nothing.
    pub fn lookup(&self, name: &str) -> (r: Option<usize>)
        ensures
            (match lookup_symbol(self@, name.spec_bytes()) {
                Some(off) => r matches Some(o) && o as int == off,
                None => r is None,
            }),
    {
        let ghost target = name.spec_bytes();
        let mut i = self.symbols.len();
        proof {
            assert(self@.take(i as int) =~= self@);
        }
        while i > 0
            invariant
                target == name.spec_bytes(),
                i <= self.symbols@.len(),
                self@.len() == self.symbols@.len(),
                lookup_symbol(self@, target) == lookup_symbol(self@.take(i as int), target),
            decreases i,
        {
            i = i - 1;
            let sym = &self.symbols[i];
            let matched = bytes_eq(sym.name.as_str().as_bytes(), name.as_bytes());
            proof {
                assert(sym@ == self@[i as int]);
                assert(matched == (self@[i as int].name == target));
                assert(self@.take(i + 1).last() == self@[i as int]);
                assert(self@.take(i + 1).drop_last() =~= self@.take(i as int));
            }
            if matched {
                return Some(sym.offset);
            }
        }
        proof {
            assert(self@.take(0).len() == 0);
        }
        None
    }
}

/// A copy of an optional token slot.
pub(crate) fn clone_opt_token(o: &Option<Token>) -> (r: Option<Token>)
    ensures
        opt_token(r) == opt_token(*o),
{
    match o {
        Some(t) => Some(t.clone()),
        None => None,
    }
}

// ---------------------------------------------------------------------------
// The program: the two assembly phases over a parsed instruction sequence.
// ---------------------------------------------------------------------------

/// An ordered program: parsed instructions in source order; the position of
/// an instruction fixes its byte offset, four bytes per instruction.
#[derive(Debug)]
pub struct Program {
    pub instrs: Vec<AssemblerInstr>,
}

impl View for Program {
    type V = Seq<AssemblerInstrModel>;

    open spec fn view(&self) -> Seq<AssemblerInstrModel> {
        self.instrs@.map_values(|x: AssemblerInstr| x@)
    }
}

/// The symbols the first assembly phase collects: each label declaration in
/// program order, bound to its own instruction's byte offset, four bytes per
/// instruction.
pub open spec fn symbols_of_program(instrs: Seq<AssemblerInstrModel>) -> Seq<SymbolModel>
    decreases instrs.len(),
{
    if instrs.len() == 0 {
        Seq::empty()
    } else {
        let front = symbols_of_program(instrs.drop_last());
        match instrs.last().label {
            Some(TokenModel::LabelDecl { name }) => front.push(
                SymbolModel { name, kind: SymbolKind::Label, offset: 4 * (instrs.len() - 1) },
            ),
            _ => front,
        }
    }
}

/// The bytes one parsed instruction contributes to the program: resolve it
/// against the symbol table, then emit it.
pub open spec fn instr_bytes(i: AssemblerInstrModel, syms: Seq<SymbolModel>) -> Result<
    Seq<u8>,
    Error,
> {
    match resolve_instr(i, syms) {
        Err(e) => Err(e),
        Ok(ins) => emit_instruction(ins),
    }
}

/// The bytes a program emits against a symbol table: each instruction's
/// bytes in order; the first failing instruction's error wins.
pub open spec fn emit_program(instrs: Seq<AssemblerInstrModel>, syms: Seq<SymbolModel>) -> Result<
    Seq<u8>,
    Error,
> 
    decreases instrs.len(),
{
    if instrs.len() == 0 {
        Ok(Seq::empty())
    } else {
        match emit_program(instrs.drop_last(), syms) {
            Err(e) => Err(e),
            Ok(front) => match instr_bytes(instrs.last(), syms) {
                Err(e) => Err(e),
                Ok(bs) => Ok(front + bs),
            },
        }
    }
}

/// The two assembly phases over a parsed program: collect its symbols, then
/// emit it against them.
pub open spec fn program_to_bytes(instrs: Seq<AssemblerInstrModel>) -> Result<Seq<u8>, Error> {
    emit_program(instrs, symbols_of_program(instrs))
}

/// Once a prefix of the program fails to emit, every longer prefix fails
/// with the same error.
pub proof fn lemma_emit_program_error_stable(
    instrs: Seq<AssemblerInstrModel>,
    syms: Seq<SymbolModel>,
    i: int,
    j: int,
)
    requires
        0 <= i <= j <= instrs.len(),
        emit_program(instrs.take(i), syms) is Err,
    ensures
        emit_program(instrs.take(j), syms) == emit_program(instrs.take(i), syms),
    decreases j - i,
{
    if j > i {
        lemma_emit_program_error_stable(instrs, syms, i, j - 1);
        assert(instrs.take(j).drop_last() =~= instrs.take(j - 1));
    }
}

impl Program {
    /// The first assembly phase: walk the program once and record each label
    /// declaration at its instruction's byte offset.
    pub fn symbol_table(&self) -> (t: SymbolTable)
        requires
            self.instrs@.len() * 4 <= usize::MAX,
        ensures
            t@ == symbols_of_program(self@),
    {
        let mut table = SymbolTable::new();
        let mut i: usize = 0;
        proof {
            assert(self@.take(0) =~= Seq::<AssemblerInstrModel>::empty());
        }
        while i < self.instrs.len()
            invariant
                i <= self.instrs@.len(),
                self.instrs@.len() * 4 <= usize::MAX,
                self@.len() == self.instrs@.len(),
                table@ =~= symbols_of_program(self@.take(i as int)),
            decreases self.instrs@.len() - i,
        {
            proof {
                assert(self@.take(i + 1).drop_last() =~= self@.take(i as int));
                assert(self@.take(i + 1).last() == self@[i as int]);
                assert(self@[i as int] == self.instrs@[i as int]@);
            }
            let ghost pre = table@;
            match &self.instrs[i].label {
                Some(Token::LabelDecl { name }) => {
                    let sym = Symbol { name: name.clone(), kind: SymbolKind::Label, offset: 4 * i };
                    table.symbols.push(sym);
                    proof {
                        assert(table@ =~= pre.push(sym@));
                    }
                },
                _ => {},
            }
            i = i + 1;
        }
        proof {
            assert(self@.take(self@.len() as int) =~= self@);
        }
        table
    }

    /// The second assembly phase over both phases: collect this program's
    /// symbols, then resolve and emit each instruction in order, exactly as
    /// `program_to_bytes` describes. Each emitted instruction contributes
    /// its encoding, and the first failing instruction aborts the whole
    /// buffer with its error.
    pub fn to_bytes(&self) -> (r: Result<Vec<u8>, Error>)
        requires
            self.instrs@.len() * 4 <= usize::MAX,
        ensures
            (match program_to_bytes(self@) {
                Ok(bs) => r matches Ok(v) && v@ == bs,
                Err(e) => r == Err::<Vec<u8>, Error>(e),
            }),
    {
        let ghost syms = symbols_of_program(self@);
        let symbols = self.symbol_table();
        let mut bytecode: Vec<u8> = Vec::new();
        let mut i: usize = 0;
        proof {
            assert(self@.take(0) =~= Seq::<AssemblerInstrModel>::empty());
            assert(bytecode@ =~= Seq::<u8>::empty());
        }
        while i < self.instrs.len()
            invariant
                i <= self.instrs@.len(),
                self@.len() == self.instrs@.len(),
                syms == symbols_of_program(self@),
                symbols@ == syms,
                emit_program(self@.take(i as int), syms) == Ok::<Seq<u8>, Error>(bytecode@),
            decreases self.instrs@.len() - i,
        {
            proof {
                assert(self@.take(i + 1).drop_last() =~= self@.take(i as int));
                assert(self@.take(i + 1).last() == self@[i as int]);
                assert(self@[i as int] == self.instrs@[i as int]@);
            }
            let resolved = match self.instrs[i].resolve(&symbols) {
                Ok(x) => x,
                Err(e) => {
                    proof {
                        lemma_emit_program_error_stable(self@, syms, i + 1, self@.len() as int);
                        assert(self@.take(self@.len() as int) =~= self@);
                    }
                    return Err(e);
                },
            };
            let mut bytes = match resolved.to_bytes() {
                Ok(b) => b,
                Err(e) => {
                    proof {
                        lemma_emit_program_error_stable(self@, syms, i + 1, self@.len() as int);
                        assert(self@.take(self@.len() as int) =~= self@);
                    }
                    return Err(e);
                },
            };
            bytecode.append(&mut bytes);
            i = i + 1;
        }
        proof {
            assert(self@.take(self@.len() as int) =~= self@);
        }
        Ok(bytecode)
    }
}

// ---------------------------------------------------------------------------
// The assembler: parse, then the two phases.
// ---------------------------------------------------------------------------

/// What assembling a source text yields: its parsed program put through both
/// assembly phases; `ParseError` when no instruction parses or when anything
/// but whitespace is left unconsumed.
pub open spec fn spec_assemble(s: Seq<u8>) -> Result<Seq<u8>, Error> {
    match spec_program_parser(s) {
        None => Err(Error::ParseError),
        Some((instrs, end)) => if exists|k: int| end <= k < s.len() && !is_white(#[trigger] s[k]) {
            Err(Error::ParseError)
        } else {
            program_to_bytes(instrs)
        },
    }
}

/// The assembler: turns source text into bytecode and keeps the last
/// program and buffer it produced.
#[derive(Debug)]
pub struct Assembler {
    pub program: Program,
    pub bytecode: Vec<u8>,
}

impl core::default::Default for Assembler {
    /// A fresh assembler with an empty program and an empty buffer.
    fn default() -> (r: Assembler)
        ensures
            r.program@ =~= Seq::<AssemblerInstrModel>::empty(),
            r.bytecode@ =~= Seq::<u8>::empty(),
    {
        let a = Assembler { program: Program { instrs: Vec::new() }, bytecode: Vec::new() };
        proof {
            assert(a.program@ =~= Seq::<AssemblerInstrModel>::empty());
        }
        a
    }
}

impl Assembler {
    /// Assemble a source text, exactly as `spec_assemble` describes: parse
    /// it, reject anything but trailing whitespace after the instructions,
    /// collect the labels, and emit four bytes per instruction. Source text
    /// that is not ASCII is a parse error. The length bound keeps every
    /// label's byte offset within the machine's address range.
    pub fn assemble(&mut self, source_code: &str) -> (r: Result<Vec<u8>, Error>)
        requires
            source_code.spec_bytes().len() <= usize::MAX / 4,
        ensures
            source_code.is_ascii() ==> (match spec_assemble(source_code.spec_bytes()) {
                Ok(bs) => r matches Ok(v) && v@ == bs,
                Err(e) => r == Err::<Vec<u8>, Error>(e),
            }),
            !source_code.is_ascii() ==> r == Err::<Vec<u8>, Error>(Error::ParseError),
    {
        if !source_code.is_ascii() {
            return Err(Error::ParseError);
        }
        let ghost s = source_code.spec_bytes();
        match program_parsers::program_parser(source_code) {
            None => Err(Error::ParseError),
            Some((program, end)) => {
                let bytes = source_code.as_bytes();
                let mut k = end;
                proof {
                    lemma_spec_instrs_bounds(s, 0);
                }
                while k < bytes.len()
                    invariant
                        bytes@ == s,
                        s == source_code.spec_bytes(),
                        source_code.is_ascii(),
                        end <= k <= s.len(),
                        spec_program_parser(s) == Some::<(Seq<AssemblerInstrModel>, int)>(
                            (program@, end as int),
                        ),
                        program@.len() == program.instrs@.len(),
                        program.instrs@.len() * 4 <= usize::MAX,
                        forall|j: int| end <= j < k ==> is_white(#[trigger] s[j]),
                    decreases s.len() - k,
                {
                    if !is_white_byte(bytes[k]) {
                        proof {
                            assert(end <= k < s.len() && !is_white(s[k as int]));
                        }
                        return Err(Error::ParseError);
                    }
                    k = k + 1;
                }
                proof {
                    assert(program@.len() == program.instrs@.len());
                }
                self.emit_bytecode(program)
            },
        }
    }

    /// Store a program and the bytecode the two phases emit for it, handing
    /// the bytecode back.
    fn emit_bytecode(&mut self, program: Program) -> (r: Result<Vec<u8>, Error>)
        requires
            program.instrs@.len() * 4 <= usize::MAX,
        ensures
            (match program_to_bytes(program@) {
                Ok(bs) => r matches Ok(v) && v@ == bs && final(self).bytecode@ == bs
                    && final(self).program@ == program@,
                Err(e) => r == Err::<Vec<u8>, Error>(e),
            }),
    {
        match program.to_bytes() {
            Ok(b) => {
                self.bytecode = b;
                self.program = program;
                let out = self.bytecode.clone();
                proof {
                    assert forall|i: int| 0 <= i < out@.len() implies out@[i]
                        == self.bytecode@[i] by {
                        assert(vstd::pervasive::cloned::<u8>(self.bytecode[i], out[i]));
                    }
                    assert(out@ =~= self.bytecode@);
                }
                Ok(out)
            },
            Err(e) => Err(e),
        }
    }
}

// ---------------------------------------------------------------------------
// Laws of the assembler.
// ---------------------------------------------------------------------------

/// Whether an operand slot is empty or holds a token that encodes: a
/// register or an integer literal.
pub open spec fn operand_encodes(o: Option<TokenModel>) -> bool {
    match o {
        None => true,
        Some(TokenModel::Register { .. }) => true,
        Some(TokenModel::Integer { .. }) => true,
        Some(_) => false,
    }
}

/// The encoded width of a list of operand slots.
pub open spec fn operands_width(ops: Seq<Option<TokenModel>>) -> int
    decreases ops.len(),
{
    if ops.len() == 0 {
        0
    } else {
        operand_width(ops[0]) + operands_width(ops.drop_first())
    }
}

/// Operand slots that all encode emit successfully, and their bytes are
/// exactly as wide as the slots' widths.
pub proof fn lemma_emit_operands_len(ops: Seq<Option<TokenModel>>)
    requires
        forall|k: int| 0 <= k < ops.len() ==> operand_encodes(#[trigger] ops[k]),
    ensures
        emit_operands(ops) matches Ok(bs) && bs.len() == operands_width(ops),
    decreases ops.len(),
{
    if ops.len() > 0 {
        assert forall|k: int| 0 <= k < ops.drop_first().len() implies operand_encodes(
            #[trigger] ops.drop_first()[k],
        ) by {
            assert(ops.drop_first()[k] == ops[k + 1]);
        }
        lemma_emit_operands_len(ops.drop_first());
    }
}

/// Every valid single instruction — an opcode at its head and at most three
/// encoded operand bytes — emits exactly four bytes.
pub proof fn lemma_instruction_emits_four_bytes(i: InstructionModel)
    requires
        i.opcode matches Some(t) && t is Op,
        operand_encodes(i.operands.0),
        operand_encodes(i.operands.1),
        operand_encodes(i.operands.2),
        operand_width(i.operands.0) + operand_width(i.operands.1) + operand_width(i.operands.2)
            <= 3,
    ensures
        emit_instruction(i) matches Ok(bs) && bs.len() == 4,
{
    let ops = seq![i.operands.0, i.operands.1, i.operands.2];
    assert forall|k: int| 0 <= k < ops.len() implies operand_encodes(#[trigger] ops[k]) by {
    }
    lemma_emit_operands_len(ops);
    let t1 = ops.drop_first();
    let t2 = t1.drop_first();
    assert(t1 =~= seq![i.operands.1, i.operands.2]);
    assert(t2 =~= seq![i.operands.2]);
    assert(t2.drop_first() =~= Seq::<Option<TokenModel>>::empty());
    assert(operands_width(t2.drop_first()) == 0);
    assert(operands_width(t2) == operand_width(i.operands.2));
    assert(operands_width(t1) == operand_width(i.operands.1) + operand_width(i.operands.2));
    assert(operands_width(ops) == operand_width(i.operands.0) + operand_width(i.operands.1)
        + operand_width(i.operands.2));
}

/// Whatever an instruction holds, a successful emission is exactly four
/// bytes — the uniform instruction width is unconditional.
pub proof fn lemma_emitted_instruction_is_four_bytes(i: InstructionModel)
    ensures
        emit_instruction(i) matches Ok(bs) ==> bs.len() == 4,
{
}

/// A program emits exactly four bytes per instruction whenever it emits at
/// all — the uniform width that makes `4 * index` the true byte offset of
/// each instruction, and so makes the symbol table's offsets the offsets
/// the machine sees.
pub proof fn lemma_program_uniform_width(instrs: Seq<AssemblerInstrModel>, syms: Seq<SymbolModel>)
    ensures
        emit_program(instrs, syms) matches Ok(bs) ==> bs.len() == 4 * instrs.len(),
    decreases instrs.len(),
{
    if instrs.len() > 0 {
        lemma_program_uniform_width(instrs.drop_last(), syms);
        lemma_emitted_instruction_is_four_bytes(resolve_instr(instrs.last(), syms)->Ok_0);
    }
}

/// In a program that emits, the four emitted bytes of the instruction at
/// index `j` are exactly the slice at byte offset `4 * j` of the emitted
/// buffer.
pub proof fn lemma_instruction_slot_bytes(
    instrs: Seq<AssemblerInstrModel>,
    syms: Seq<SymbolModel>,
    j: int,
)
    requires
        emit_program(instrs, syms) is Ok,
        0 <= j < instrs.len(),
    ensures
        instr_bytes(instrs[j], syms) is Ok,
        emit_program(instrs, syms) matches Ok(bs) && bs.subrange(4 * j, 4 * j + 4) == instr_bytes(
            instrs[j],
            syms,
        )->Ok_0,
    decreases instrs.len(),
{
    let n = instrs.len() as int;
    lemma_program_uniform_width(instrs, syms);
    lemma_program_uniform_width(instrs.drop_last(), syms);
    let front = emit_program(instrs.drop_last(), syms)->Ok_0;
    let last = instr_bytes(instrs.last(), syms)->Ok_0;
    let bs = emit_program(instrs, syms)->Ok_0;
    assert(instrs.last() == instrs[n - 1]);
    lemma_emitted_instruction_is_four_bytes(resolve_instr(instrs[n - 1], syms)->Ok_0);
    assert(bs == front + last);
    if j == n - 1 {
        assert(bs.subrange(4 * j, 4 * j + 4) =~= last);
    } else {
        assert(instrs.drop_last()[j] == instrs[j]);
        lemma_instruction_slot_bytes(instrs.drop_last(), syms, j);
        assert(bs.subrange(4 * j, 4 * j + 4) =~= front.subrange(4 * j, 4 * j + 4));
    }
}

/// The byte offset a branch-to-label instruction carries after assembly is
/// exactly the declaring instruction's own offset: in a program that emits,
/// where the last declaration of `name` sits at index `i` and the
/// instruction at index `j` is the branch-to-label shape using `name`, the
/// emitted buffer holds that instruction's opcode at byte `4 * j` and the
/// big-endian offset `4 * i` in the two bytes after it.
pub proof fn lemma_branch_encodes_declared_offset(
    instrs: Seq<AssemblerInstrModel>,
    i: int,
    j: int,
    name: Seq<u8>,
)
    requires
        program_to_bytes(instrs) is Ok,
        0 <= i < instrs.len(),
        0 <= j < instrs.len(),
        instrs[i].label == Some(TokenModel::LabelDecl { name }),
        forall|k: int|
            i < k < instrs.len() ==> #[trigger] instrs[k].label != Some(
                TokenModel::LabelDecl { name },
            ),
        instrs[j].label == Some(TokenModel::LabelUsage { name }),
        4 * i < 65536,
    ensures
        program_to_bytes(instrs) matches Ok(bs) && bs[4 * j + 1] * 256 + bs[4 * j + 2] == 4 * i,
{
    let syms = symbols_of_program(instrs);
    lemma_label_resolution(instrs, i, name);
    lemma_instruction_slot_bytes(instrs, syms, j);
    let ins = resolve_instr(instrs[j], syms)->Ok_0;
    let v = ((4 * i) % 65536) as i32;
    vstd::arithmetic::div_mod::lemma_small_mod((4 * i) as nat, 65536nat);
    assert(v == 4 * i);
    assert(ins.operands.0 == Some(TokenModel::Integer { value: v }));
    assert(u16_of_i32(v) == 4 * i) by {
        vstd::arithmetic::div_mod::lemma_small_mod((4 * i) as nat, 65536nat);
    }
    let ops = seq![ins.operands.0, ins.operands.1, ins.operands.2];
    let opbytes = emit_operands(ops)->Ok_0;
    reveal_with_fuel(emit_operands, 5);
    assert(ops.drop_first() =~= seq![ins.operands.1, ins.operands.2]);
    assert(ops.drop_first().drop_first() =~= seq![ins.operands.2]);
    assert(ops.drop_first().drop_first().drop_first() =~= Seq::<Option<TokenModel>>::empty());
    assert(opbytes =~= seq![(u16_of_i32(v) / 256) as u8, (u16_of_i32(v) % 256) as u8]);
    let slot = instr_bytes(instrs[j], syms)->Ok_0;
    assert(slot =~= pad4(seq![opcode_to_byte(ins.opcode->Some_0->Op_code)] + opbytes));
    assert(slot[1] == (u16_of_i32(v) / 256) as u8);
    assert(slot[2] == (u16_of_i32(v) % 256) as u8);
    lemma_program_uniform_width(instrs, syms);
    let bs = emit_program(instrs, syms)->Ok_0;
    assert(bs.len() == 4 * instrs.len());
    assert(bs[4 * j + 1] == bs.subrange(4 * j, 4 * j + 4)[1]);
    assert(bs[4 * j + 2] == bs.subrange(4 * j, 4 * j + 4)[2]);
    assert(bs[4 * j + 1] * 256 + bs[4 * j + 2] == 4 * i) by {
        assert(bs[4 * j + 1] == (u16_of_i32(v) / 256) as u8);
        assert(bs[4 * j + 2] == (u16_of_i32(v) % 256) as u8);
    }
}

/// When the source parses and only whitespace trails the parsed text,
/// assembly is exactly the two phases over the parsed program.
pub proof fn lemma_assemble_is_program_to_bytes(s: Seq<u8>)
    requires
        spec_program_parser(s) is Some,
        forall|k: int|
            spec_program_parser(s)->Some_0.1 <= k < s.len() ==> is_white(#[trigger] s[k]),
    ensures
        spec_assemble(s) == program_to_bytes(spec_program_parser(s)->Some_0.0),
{
}

/// Assembling a source text whose parsed program — followed by nothing but
/// whitespace — uses an undeclared label on the first instruction that fails
/// to emit yields exactly `LabelNotFound`.
pub proof fn lemma_assemble_undefined_label(s: Seq<u8>, i: int, name: Seq<u8>)
    requires
        spec_program_parser(s) is Some,
        forall|k: int|
            spec_program_parser(s)->Some_0.1 <= k < s.len() ==> is_white(#[trigger] s[k]),
        ({
            let instrs = spec_program_parser(s)->Some_0.0;
            &&& 0 <= i < instrs.len()
            &&& emit_program(instrs.take(i), symbols_of_program(instrs)) is Ok
            &&& instrs[i].label == Some(TokenModel::LabelUsage { name })
            &&& lookup_symbol(symbols_of_program(instrs), name) is None
        }),
    ensures
        spec_assemble(s) == Err::<Seq<u8>, Error>(Error::LabelNotFound),
{
    let instrs = spec_program_parser(s)->Some_0.0;
    lemma_assemble_is_program_to_bytes(s);
    lemma_undefined_label_fails(instrs, i, name);
}

/// Assembling a source text — its parsed program followed by nothing but
/// whitespace, its emission succeeding — encodes each branch-to-label
/// operand as the declaring instruction's own byte offset: the emitted
/// buffer holds the big-endian offset `4 * i` in the two bytes after the
/// branch instruction's opcode byte at `4 * j`.
pub proof fn lemma_assemble_branch_offset(s: Seq<u8>, i: int, j: int, name: Seq<u8>)
    requires
        spec_program_parser(s) is Some,
        forall|k: int|
            spec_program_parser(s)->Some_0.1 <= k < s.len() ==> is_white(#[trigger] s[k]),
        ({
            let instrs = spec_program_parser(s)->Some_0.0;
            &&& program_to_bytes(instrs) is Ok
            &&& 0 <= i < instrs.len()
            &&& 0 <= j < instrs.len()
            &&& instrs[i].label == Some(TokenModel::LabelDecl { name })
            &&& forall|k: int|
                i < k < instrs.len() ==> #[trigger] instrs[k].label != Some(
                    TokenModel::LabelDecl { name },
                )
            &&& instrs[j].label == Some(TokenModel::LabelUsage { name })
            &&& 4 * i < 65536
        }),
    ensures
        spec_assemble(s) matches Ok(bs) && bs[4 * j + 1] * 256 + bs[4 * j + 2] == 4 * i,
{
    let instrs = spec_program_parser(s)->Some_0.0;
    lemma_assemble_is_program_to_bytes(s);
    lemma_branch_encodes_declared_offset(instrs, i, j, name);
}

/// A label declared on the instruction at index `i`, and not declared again
/// later in the program, resolves to exactly that instruction's own byte
/// offset `4 * i` — the offset of the labelled instruction itself, not of
/// the one after it.
pub proof fn lemma_label_resolution(instrs: Seq<AssemblerInstrModel>, i: int, name: Seq<u8>)
    requires
        0 <= i < instrs.len(),
        instrs[i].label == Some(TokenModel::LabelDecl { name }),
        forall|j: int|
            i < j < instrs.len() ==> #[trigger] instrs[j].label != Some(
                TokenModel::LabelDecl { name },
            ),
    ensures
        lookup_symbol(symbols_of_program(instrs), name) == Some(4 * i),
    decreases instrs.len(),
{
    let n = instrs.len() as int;
    let syms = symbols_of_program(instrs);
    let front = symbols_of_program(instrs.drop_last());
    if i == n - 1 {
        assert(instrs.last() == instrs[i]);
        let sym = SymbolModel { name, kind: SymbolKind::Label, offset: 4 * i };
        assert(syms == front.push(sym));
        assert(syms.last() == sym);
        assert(lookup_symbol(syms, name) == Some(4 * i));
    } else {
        assert(instrs.drop_last()[i] == instrs[i]);
        assert forall|j: int|
            i < j < instrs.drop_last().len() implies #[trigger] instrs.drop_last()[j].label
            != Some(TokenModel::LabelDecl { name }) by {
            assert(instrs.drop_last()[j] == instrs[j]);
        }
        lemma_label_resolution(instrs.drop_last(), i, name);
        assert(instrs.last() == instrs[n - 1]);
        assert(instrs[n - 1].label != Some(TokenModel::LabelDecl { name }));
        match instrs.last().label {
            Some(TokenModel::LabelDecl { name: m }) => {
                assert(m != name);
                let sym = SymbolModel { name: m, kind: SymbolKind::Label, offset: 4 * (n - 1) };
                assert(syms == front.push(sym));
                assert(syms.last() == sym);
                assert(syms.drop_last() =~= front);
                assert(lookup_symbol(syms, name) == lookup_symbol(front, name));
            },
            _ => {
                assert(syms == front);
            },
        }
    }
}

/// A program whose instructions emit cleanly up to index `i`, where a
/// branch-to-label instruction uses a label that no instruction declares,
/// fails to assemble with exactly `LabelNotFound` — an undefined label is
/// never silently encoded as an offset.
pub proof fn lemma_undefined_label_fails(instrs: Seq<AssemblerInstrModel>, i: int, name: Seq<u8>)
    requires
        0 <= i < instrs.len(),
        emit_program(instrs.take(i), symbols_of_program(instrs)) is Ok,
        instrs[i].label == Some(TokenModel::LabelUsage { name }),
        lookup_symbol(symbols_of_program(instrs), name) is None,
    ensures
        program_to_bytes(instrs) == Err::<Seq<u8>, Error>(Error::LabelNotFound),
{
    let syms = symbols_of_program(instrs);
    assert(instr_bytes(instrs[i], syms) == Err::<Seq<u8>, Error>(Error::LabelNotFound));
    assert(instrs.take(i + 1).drop_last() =~= instrs.take(i));
    assert(instrs.take(i + 1).last() == instrs[i]);
    assert(emit_program(instrs.take(i + 1), syms) == Err::<Seq<u8>, Error>(Error::LabelNotFound));
    lemma_emit_program_error_stable(instrs, syms, i + 1, instrs.len() as int);
    assert(instrs.take(instrs.len() as int) =~= instrs);
}

} // verus!
