//! Symbol parsers: a label declaration is a run of letters followed by a
//! colon and a space at the start of an instruction; a label usage is a
//! space, `@`, and a run of letters; a directive is `!` and a run of
//! letters.

use super::{alpha_run_end, lemma_run_end_bounds, lemma_substring_bytes, scan_alpha, Token,
    TokenModel};
use vstd::prelude::*;
use vstd::string::{StrSliceExecFns, StringSliceAdditionalSpecFns};

verus! {

broadcast use vstd::string::is_ascii_spec_bytes;

/// What `label_decl_parser` yields at `pos`: the name of a label declared
/// there — a maximal nonempty letter run followed by a colon and a space —
/// and the position after the space.
pub open spec fn spec_label_decl_parser(s: Seq<u8>, pos: int) -> Option<(Seq<u8>, int)> {
    let aend = alpha_run_end(s, pos);
    if aend == pos {
        None
    } else if aend + 2 <= s.len() && s[aend] == 58 && s[aend + 1] == 32 {  // ": "
        Some((s.subrange(pos, aend), aend + 2))
    } else {
        None
    }
}

/// What `label_usage_parser` yields at `pos`: the name of a label used
/// there — a space, an `@`, and a maximal nonempty letter run — and the
/// position after the name.
pub open spec fn spec_label_usage_parser(s: Seq<u8>, pos: int) -> Option<(Seq<u8>, int)> {
    if pos + 2 <= s.len() && s[pos] == 32 && s[pos + 1] == 64 {  // " @"
        let aend = alpha_run_end(s, pos + 2);
        if aend == pos + 2 {
            None
        } else {
            Some((s.subrange(pos + 2, aend), aend))
        }
    } else {
        None
    }
}

/// What `directive_decl_parser` yields at `pos`: the name of a directive
/// declared there — `!` and a maximal nonempty letter run — and the
/// position after the name.
pub open spec fn spec_directive_decl_parser(s: Seq<u8>, pos: int) -> Option<(Seq<u8>, int)> {
    if pos < s.len() && s[pos] == 33 {  // '!'
        let aend = alpha_run_end(s, pos + 1);
        if aend == pos + 1 {
            None
        } else {
            Some((s.subrange(pos + 1, aend), aend))
        }
    } else {
        None
    }
}

/// A successful symbol parse consumes at least one byte and stays inside the
/// input.
pub proof fn lemma_symbol_parsers_advance(s: Seq<u8>, pos: int)
    requires
        0 <= pos <= s.len(),
    ensures
        spec_label_decl_parser(s, pos) matches Some(t) ==> pos < t.1 <= s.len(),
        spec_label_usage_parser(s, pos) matches Some(t) ==> pos < t.1 <= s.len(),
        spec_directive_decl_parser(s, pos) matches Some(t) ==> pos < t.1 <= s.len(),
{
    lemma_run_end_bounds(s, pos);
    if pos + 2 <= s.len() {
        lemma_run_end_bounds(s, pos + 2);
    }
    if pos + 1 <= s.len() {
        lemma_run_end_bounds(s, pos + 1);
    }
}

/// Parse the label declaration at `pos`, as `spec_label_decl_parser`
/// describes.
pub fn label_decl_parser(input: &str, pos: usize) -> (r: Option<(Token, usize)>)
    requires
        input.is_ascii(),
        pos <= input.spec_bytes().len(),
    ensures
        (match spec_label_decl_parser(input.spec_bytes(), pos as int) {
            Some((name, end)) => r matches Some(t) && t.0@ == (TokenModel::LabelDecl { name })
                && t.1 == end,
            None => r is None,
        }),
{
    let bytes = input.as_bytes();
    let aend = scan_alpha(bytes, pos);
    if aend == pos {
        return None;
    }
    if aend < bytes.len() && aend + 1 < bytes.len() && bytes[aend] == 58 && bytes[aend + 1]
        == 32 {  // ": "
        proof {
            lemma_substring_bytes(input, pos as int, aend as int);
        }
        let name = input.substring_ascii(pos, aend).to_owned();
        Some((Token::LabelDecl { name }, aend + 2))
    } else {
        None
    }
}

/// Parse the label usage at `pos`, as `spec_label_usage_parser` describes.
pub fn label_usage_parser(input: &str, pos: usize) -> (r: Option<(Token, usize)>)
    requires
        input.is_ascii(),
        pos <= input.spec_bytes().len(),
    ensures
        (match spec_label_usage_parser(input.spec_bytes(), pos as int) {
            Some((name, end)) => r matches Some(t) && t.0@ == (TokenModel::LabelUsage { name })
                && t.1 == end,
            None => r is None,
        }),
{
    let bytes = input.as_bytes();
    if pos < bytes.len() && pos + 1 < bytes.len() && bytes[pos] == 32 && bytes[pos + 1]
        == 64 {  // " @"
        let aend = scan_alpha(bytes, pos + 2);
        if aend == pos + 2 {
            None
        } else {
            proof {
                lemma_substring_bytes(input, pos + 2, aend as int);
            }
            let name = input.substring_ascii(pos + 2, aend).to_owned();
            Some((Token::LabelUsage { name }, aend))
        }
    } else {
        None
    }
}

/// Parse the directive declaration at `pos`, as `spec_directive_decl_parser`
/// describes.
pub fn directive_decl_parser(input: &str, pos: usize) -> (r: Option<(Token, usize)>)
    requires
        input.is_ascii(),
        pos <= input.spec_bytes().len(),
    ensures
        (match spec_directive_decl_parser(input.spec_bytes(), pos as int) {
            Some((name, end)) => r matches Some(t) && t.0@ == (TokenModel::Directive { name })
                && t.1 == end,
            None => r is None,
        }),
{
    let bytes = input.as_bytes();
    if pos < bytes.len() && bytes[pos] == 33 {  // '!'
        let aend = scan_alpha(bytes, pos + 1);
        if aend == pos + 1 {
            None
        } else {
            proof {
                lemma_substring_bytes(input, pos + 1, aend as int);
            }
            let name = input.substring_ascii(pos + 1, aend).to_owned();
            Some((Token::Directive { name }, aend))
        }
    } else {
        None
    }
}

} // verus!
