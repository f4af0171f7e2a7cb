//! The state behind the interactive front end: the machine it drives, the
//! history of entered commands, and the parser for lines of hexadecimal
//! bytes. The line reading and printing themselves are the front end's
//! business, not the library's.

use crate::vm::Vm;
use vstd::prelude::*;
use vstd::string::StringSliceAdditionalSpecFns;

verus! {

broadcast use vstd::string::is_ascii_spec_bytes;

/// A hexadecimal digit byte: `0`-`9`, `a`-`f`, or `A`-`F`.
pub open spec fn is_hex_digit(b: u8) -> bool {
    (48 <= b && b <= 57) || (97 <= b && b <= 102) || (65 <= b && b <= 70)
}

/// The value of one hexadecimal digit byte.
pub open spec fn hex_digit_value(b: u8) -> int {
    if 48 <= b && b <= 57 {  // '0'..'9'
        b - 48
    } else if 97 <= b && b <= 102 {  // 'a'..'f'
        b - 87
    } else {  // 'A'..'F'
        b - 55
    }
}

/// The position of the first space at or after `pos`, or the end of the
/// input: where the piece starting at `pos` ends.
pub open spec fn piece_end(s: Seq<u8>, pos: int) -> int
    decreases s.len() - pos,
{
    if pos < 0 || pos >= s.len() {
        pos
    } else if s[pos] == 32 {  // ' '
        pos
    } else {
        piece_end(s, pos + 1)
    }
}

/// The value of the hexadecimal digits in `s[pos .. end)`.
pub open spec fn hex_value(s: Seq<u8>, pos: int, end: int) -> int
    decreases end - pos,
{
    if pos >= end {
        0
    } else {
        hex_value(s, pos, end - 1) * 16 + hex_digit_value(s[end - 1])
    }
}

/// Where the digits of the piece `s[pos .. end)` begin: one past an
/// optional leading plus sign, as the unsigned radix-16 number parse admits.
pub open spec fn piece_body(s: Seq<u8>, pos: int, end: int) -> int {
    if pos < end && s[pos] == 43 {  // '+'
        pos + 1
    } else {
        pos
    }
}

/// Whether `s[pos .. end)` is a well-formed hexadecimal byte: an optional
/// leading plus sign, then one or more hexadecimal digits, value at most
/// 255.
pub open spec fn piece_ok(s: Seq<u8>, pos: int, end: int) -> bool {
    let body = piece_body(s, pos, end);
    &&& body < end
    &&& forall|i: int| body <= i < end ==> is_hex_digit(#[trigger] s[i])
    &&& hex_value(s, body, end) <= 255
}

/// The bytes named by the space-separated hexadecimal pieces of
/// `s[pos ..]`: every piece must be a well-formed hexadecimal byte, so an
/// empty piece — a leading, trailing or doubled space, or an empty line —
/// fails, as does any piece with a foreign character or a value past 255.
/// A failure reports only that the line did not parse; which piece failed,
/// and how, is not carried along.
pub open spec fn spec_parse_hex(s: Seq<u8>, pos: int) -> Option<Seq<u8>>
    decreases s.len() - pos,
{
    if pos < 0 || pos > s.len() {
        None
    } else {
        let end = piece_end(s, pos);
        if !piece_ok(s, pos, end) {
            None
        } else {
            let b = hex_value(s, piece_body(s, pos, end), end) as u8;
            if end >= s.len() {
                Some(seq![b])
            } else {
                match spec_parse_hex(s, end + 1) {
                    None => None,
                    Some(rest) => Some(seq![b] + rest),
                }
            }
        }
    }
}

/// A piece end never moves backward and never passes the end of the input.
pub proof fn lemma_piece_end_bounds(s: Seq<u8>, pos: int)
    requires
        0 <= pos <= s.len(),
    ensures
        pos <= piece_end(s, pos) <= s.len(),
        piece_end(s, pos) < s.len() ==> s[piece_end(s, pos)] == 32,
    decreases s.len() - pos,
{
    if pos < s.len() && s[pos] != 32 {
        lemma_piece_end_bounds(s, pos + 1);
    }
}

/// The value of a hexadecimal run is never negative.
pub proof fn lemma_hex_value_nonneg(s: Seq<u8>, pos: int, end: int)
    requires
        forall|i: int| pos <= i < end ==> is_hex_digit(#[trigger] s[i]),
    ensures
        hex_value(s, pos, end) >= 0,
    decreases end - pos,
{
    if pos < end {
        lemma_hex_value_nonneg(s, pos, end - 1);
    }
}

/// Extending a hexadecimal run to the right never shrinks its value.
pub proof fn lemma_hex_value_mono(s: Seq<u8>, pos: int, mid: int, end: int)
    requires
        pos <= mid <= end,
        forall|i: int| pos <= i < end ==> is_hex_digit(#[trigger] s[i]),
    ensures
        hex_value(s, pos, end) >= hex_value(s, pos, mid),
    decreases end - mid,
{
    if mid < end {
        lemma_hex_value_nonneg(s, pos, end - 1);
        lemma_hex_value_mono(s, pos, mid, end - 1);
    }
}

/// Decide `is_hex_digit` on a byte.
fn is_hex_digit_byte(b: u8) -> (r: bool)
    ensures
        r == is_hex_digit(b),
{
    (48 <= b && b <= 57) || (97 <= b && b <= 102) || (65 <= b && b <= 70)
}

/// The session state of the interactive front end: the machine being driven
/// and the history of entered commands.
#[derive(Debug)]
pub struct Repl {
    pub vm: Vm,
    pub command_buffer: Vec<String>,
}

impl Repl {
    /// A fresh session: a fresh machine and an empty history.
    pub fn new() -> (r: Repl)
        ensures
            r.vm@.registers == crate::vm::zero_registers(),
            r.vm@.pc == 0,
            r.vm@.program == Seq::<u8>::empty(),
            r.vm@.remainder == 0u32,
            r.vm@.equal_flag == false,
            r.vm@.state == crate::vm::State::Executing,
            r.command_buffer@ == Seq::<String>::empty(),
    {
        let r = Repl { vm: Vm::default(), command_buffer: Vec::new() };
        proof {
            assert(r.command_buffer@ =~= Seq::<String>::empty());
        }
        r
    }

    /// Parse a line of space-separated hexadecimal bytes, as
    /// `spec_parse_hex` describes; a line that is not ASCII parses as
    /// nothing. A failure reports no cause: the radix parse's error value
    /// names which character or bound failed, but it is opaque here, so the
    /// parser collapses every failure to `None`.
    pub fn parse_hex(&self, buffer: &str) -> (r: Option<Vec<u8>>)
        ensures
            buffer.is_ascii() ==> (match spec_parse_hex(buffer.spec_bytes(), 0) {
                Some(bs) => r matches Some(v) && v@ == bs,
                None => r is None,
            }),
            !buffer.is_ascii() ==> r is None,
    {
        if !buffer.is_ascii() {
            return None;
        }
        let ghost s = buffer.spec_bytes();
        let bytes = buffer.as_bytes();
        let mut out: Vec<u8> = Vec::new();
        let mut pos: usize = 0;
        loop
            invariant
                buffer.is_ascii(),
                s == buffer.spec_bytes(),
                bytes@ == s,
                pos <= s.len(),
                (match spec_parse_hex(s, pos as int) {
                    Some(rest) => spec_parse_hex(s, 0) == Some(out@ + rest),
                    None => spec_parse_hex(s, 0) is None,
                }),
            decreases s.len() - pos,
        {
            proof {
                lemma_piece_end_bounds(s, pos as int);
            }
            let mut pend = pos;
            while pend < bytes.len() && bytes[pend] != 32
                invariant
                    bytes@ == s,
                    pos <= pend <= s.len(),
                    piece_end(s, pos as int) == piece_end(s, pend as int),
                decreases s.len() - pend,
            {
                pend = pend + 1;
            }
            if pend == pos {
                proof {
                    assert(!piece_ok(s, pos as int, pend as int));
                    assert(spec_parse_hex(s, pos as int) is None);
                }
                return None;
            }
            let body = if bytes[pos] == 43 {  // optional '+'
                pos + 1
            } else {
                pos
            };
            if body == pend {
                proof {
                    assert(!piece_ok(s, pos as int, pend as int));
                    assert(spec_parse_hex(s, pos as int) is None);
                }
                return None;
            }
            let mut acc: u32 = 0;
            let mut j = body;
            while j < pend
                invariant
                    buffer.is_ascii(),
                    s == buffer.spec_bytes(),
                    bytes@ == s,
                    pos <= body <= j <= pend <= s.len(),
                    pend == piece_end(s, pos as int),
                    body == piece_body(s, pos as int, pend as int),
                    (match spec_parse_hex(s, pos as int) {
                        Some(rest) => spec_parse_hex(s, 0) == Some(out@ + rest),
                        None => spec_parse_hex(s, 0) is None,
                    }),
                    forall|k: int| body <= k < j ==> is_hex_digit(#[trigger] s[k]),
                    acc == hex_value(s, body as int, j as int),
                    acc <= 255,
                decreases pend - j,
            {
                let b = bytes[j];
                if !is_hex_digit_byte(b) {
                    proof {
                        assert(!piece_ok(s, pos as int, pend as int)) by {
                            if piece_ok(s, pos as int, pend as int) {
                                assert(is_hex_digit(s[j as int]));
                            }
                        }
                        assert(spec_parse_hex(s, pos as int) is None);
                    }
                    return None;
                }
                let d: u32 = if b <= 57 {
                    (b - 48) as u32
                } else if b >= 97 {
                    (b - 87) as u32
                } else {
                    (b - 55) as u32
                };
                let next = acc * 16 + d;
                proof {
                    assert(next == hex_value(s, body as int, j + 1));
                }
                if next > 255 {
                    proof {
                        assert(!piece_ok(s, pos as int, pend as int)) by {
                            if piece_ok(s, pos as int, pend as int) {
                                lemma_hex_value_mono(s, body as int, j + 1, pend as int);
                            }
                        }
                        assert(spec_parse_hex(s, pos as int) is None);
                    }
                    return None;
                }
                acc = next;
                j = j + 1;
            }
            proof {
                assert(piece_ok(s, pos as int, pend as int));
            }
            out.push((acc % 256) as u8);
            if pend == bytes.len() {
                proof {
                    assert(spec_parse_hex(s, pos as int) == Some(
                        seq![hex_value(s, body as int, pend as int) as u8],
                    ));
                    assert(out@ =~= out@.drop_last() + seq![
                        hex_value(s, body as int, pend as int) as u8,
                    ]);
                }
                return Some(out);
            }
            proof {
                lemma_piece_end_bounds(s, pos as int);
                assert(s[pend as int] == 32);
                match spec_parse_hex(s, pend + 1) {
                    None => {},
                    Some(rest) => {
                        assert(out@.drop_last() + (seq![
                            hex_value(s, body as int, pend as int) as u8,
                        ] + rest) =~= out@ + rest);
                    },
                }
            }
            pos = pend + 1;
        }
    }
}

impl core::default::Default for Repl {
    /// A fresh session, as `new` builds it.
    fn default() -> (r: Repl)
        ensures
            r.vm@.registers == crate::vm::zero_registers(),
            r.vm@.pc == 0,
            r.vm@.program == Seq::<u8>::empty(),
            r.vm@.remainder == 0u32,
            r.vm@.equal_flag == false,
            r.vm@.state == crate::vm::State::Executing,
            r.command_buffer@ == Seq::<String>::empty(),
    {
        Repl::new()
    }
}

} // verus!
