//! The opcode parser: a maximal nonempty run of letters names an opcode.
//! Unknown names parse as the `ILL` sentinel rather than failing.

use super::{alpha_run_end, scan_alpha, Token, TokenModel};
use crate::opcodes::{opcode_for_range, opcode_of_name, Opcode};
use vstd::prelude::*;
use vstd::string::StringSliceAdditionalSpecFns;

verus! {

broadcast use vstd::string::is_ascii_spec_bytes;

/// What `opcode_parser` yields at `pos`: the maximal letter run starting
/// there, mapped through the mnemonic table, and the position after it;
/// nothing if no letter stands at `pos`.
pub open spec fn spec_opcode_parser(s: Seq<u8>, pos: int) -> Option<(Opcode, int)> {
    let end = alpha_run_end(s, pos);
    if end == pos {
        None
    } else {
        Some((opcode_of_name(s.subrange(pos, end)), end))
    }
}

/// Parse the opcode mnemonic at `pos`, as `spec_opcode_parser` describes.
pub fn opcode_parser(input: &str, pos: usize) -> (r: Option<(Token, usize)>)
    requires
        input.is_ascii(),
        pos <= input.spec_bytes().len(),
    ensures
        (match spec_opcode_parser(input.spec_bytes(), pos as int) {
            Some((code, end)) => r matches Some(t) && t.0@ == (TokenModel::Op { code }) && t.1
                == end,
            None => r is None,
        }),
{
    let bytes = input.as_bytes();
    let end = scan_alpha(bytes, pos);
    if end == pos {
        None
    } else {
        let code = opcode_for_range(bytes, pos, end);
        Some((Token::Op { code }, end))
    }
}

} // verus!
