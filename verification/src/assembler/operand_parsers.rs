//! Operand parsers: a register operand is exactly one separating space, `$`,
//! and a decimal index that fits in eight bits; an integer-literal operand is
//! exactly one separating space, `#`, and a decimal value that fits in a
//! signed 32-bit integer. An operand is a register if possible, an integer
//! literal otherwise.

use super::{
    digit_run_end, digits_value, digits_value_capped, is_digit, lemma_digit_run_chars,
    lemma_run_end_bounds, scan_digits, Token, TokenModel,
};
use vstd::prelude::*;
use vstd::string::StringSliceAdditionalSpecFns;

verus! {

broadcast use vstd::string::is_ascii_spec_bytes;

/// What `register_parser` yields at `pos`: after exactly one separating
/// space, a `$`, then a maximal nonempty digit run whose decimal value is at
/// most 255; anything else — a missing or doubled space, a tab, a foreign
/// character, an overflowing index — is a failure.
pub open spec fn spec_register_parser(s: Seq<u8>, pos: int) -> Option<(u8, int)> {
    if pos + 1 < s.len() && s[pos] == 32 && s[pos + 1] == 36 {  // " $"
        let dstart = pos + 2;
        let dend = digit_run_end(s, dstart);
        if dend == dstart {
            None
        } else {
            let v = digits_value(s, dstart, dend);
            if v > 255 {
                None
            } else {
                Some((v as u8, dend))
            }
        }
    } else {
        None
    }
}

/// What `integer_parser` yields at `pos`: after exactly one separating
/// space, a `#`, then a maximal nonempty digit run whose decimal value is at
/// most `i32::MAX`; anything else is a failure.
pub open spec fn spec_integer_parser(s: Seq<u8>, pos: int) -> Option<(i32, int)> {
    if pos + 1 < s.len() && s[pos] == 32 && s[pos + 1] == 35 {  // " #"
        let dstart = pos + 2;
        let dend = digit_run_end(s, dstart);
        if dend == dstart {
            None
        } else {
            let v = digits_value(s, dstart, dend);
            if v > i32::MAX {
                None
            } else {
                Some((v as i32, dend))
            }
        }
    } else {
        None
    }
}

/// What `operand_parser` yields at `pos`: a register operand if one parses,
/// an integer-literal operand otherwise.
pub open spec fn spec_operand_parser(s: Seq<u8>, pos: int) -> Option<(TokenModel, int)> {
    match spec_register_parser(s, pos) {
        Some((index, end)) => Some((TokenModel::Register { index }, end)),
        None => match spec_integer_parser(s, pos) {
            Some((value, end)) => Some((TokenModel::Integer { value }, end)),
            None => None,
        },
    }
}

/// A successful operand parse consumes at least one byte and stays inside
/// the input.
pub proof fn lemma_operand_parser_advances(s: Seq<u8>, pos: int)
    requires
        0 <= pos <= s.len(),
    ensures
        spec_register_parser(s, pos) matches Some(t) ==> pos < t.1 <= s.len(),
        spec_integer_parser(s, pos) matches Some(t) ==> pos < t.1 <= s.len(),
        spec_operand_parser(s, pos) matches Some(t) ==> pos < t.1 <= s.len(),
{
    if pos + 2 <= s.len() {
        lemma_run_end_bounds(s, pos + 2);
    }
}

/// Parse the register operand at `pos`, as `spec_register_parser` describes.
pub fn register_parser(input: &str, pos: usize) -> (r: Option<(Token, usize)>)
    requires
        input.is_ascii(),
        pos <= input.spec_bytes().len(),
    ensures
        (match spec_register_parser(input.spec_bytes(), pos as int) {
            Some((index, end)) => r matches Some(t) && t.0@ == (TokenModel::Register { index })
                && t.1 == end,
            None => r is None,
        }),
{
    let bytes = input.as_bytes();
    if pos < bytes.len() && pos + 1 < bytes.len() && bytes[pos] == 32 && bytes[pos + 1]
        == 36 {  // " $"
        let dstart = pos + 2;
        let dend = scan_digits(bytes, dstart);
        if dend == dstart {
            return None;
        }
        proof {
            assert forall|i: int| dstart <= i < dend implies is_digit(#[trigger] bytes@[i]) by {
                lemma_digit_run_chars(bytes@, dstart as int, i);
            }
        }
        match digits_value_capped(bytes, dstart, dend, 255) {
            Some(v) => Some((Token::Register { index: v as u8 }, dend)),
            None => None,
        }
    } else {
        None
    }
}

/// Parse the integer-literal operand at `pos`, as `spec_integer_parser`
/// describes.
pub fn integer_parser(input: &str, pos: usize) -> (r: Option<(Token, usize)>)
    requires
        input.is_ascii(),
        pos <= input.spec_bytes().len(),
    ensures
        (match spec_integer_parser(input.spec_bytes(), pos as int) {
            Some((value, end)) => r matches Some(t) && t.0@ == (TokenModel::Integer { value })
                && t.1 == end,
            None => r is None,
        }),
{
    let bytes = input.as_bytes();
    if pos < bytes.len() && pos + 1 < bytes.len() && bytes[pos] == 32 && bytes[pos + 1]
        == 35 {  // " #"
        let dstart = pos + 2;
        let dend = scan_digits(bytes, dstart);
        if dend == dstart {
            return None;
        }
        proof {
            assert forall|i: int| dstart <= i < dend implies is_digit(#[trigger] bytes@[i]) by {
                lemma_digit_run_chars(bytes@, dstart as int, i);
            }
        }
        match digits_value_capped(bytes, dstart, dend, 2147483647) {
            Some(v) => Some((Token::Integer { value: v as i32 }, dend)),
            None => None,
        }
    } else {
        None
    }
}

/// Parse the operand at `pos`, as `spec_operand_parser` describes.
pub fn operand_parser(input: &str, pos: usize) -> (r: Option<(Token, usize)>)
    requires
        input.is_ascii(),
        pos <= input.spec_bytes().len(),
    ensures
        (match spec_operand_parser(input.spec_bytes(), pos as int) {
            Some((t, end)) => r matches Some(p) && p.0@ == t && p.1 == end,
            None => r is None,
        }),
{
    match register_parser(input, pos) {
        Some(t) => Some(t),
        None => integer_parser(input, pos),
    }
}

} // verus!
