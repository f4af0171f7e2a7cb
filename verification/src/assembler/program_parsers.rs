//! The program parser: one or more instructions, each followed by a newline
//! that the final instruction may omit. Parsing stops at the first position
//! where no instruction matches; what remains unconsumed is the caller's to
//! judge.

use super::instruction_parsers::{
    lemma_parse_instr_advances, parse_instr, spec_parse_instr, AssemblerInstr, AssemblerInstrModel,
};
use super::Program;
use vstd::prelude::*;
use vstd::string::StringSliceAdditionalSpecFns;

verus! {

broadcast use vstd::string::is_ascii_spec_bytes;

/// The instructions parsed by greedy repetition from `pos`, with the
/// position where the repetition stopped. Each instruction's trailing
/// newline, if present, is consumed with it.
pub open spec fn spec_instrs(s: Seq<u8>, pos: int) -> (Seq<AssemblerInstrModel>, int)
    decreases s.len() - pos,
{
    if pos < 0 || pos > s.len() {
        (Seq::empty(), pos)
    } else {
        match spec_parse_instr(s, pos) {
            None => (Seq::empty(), pos),
            Some((i, p1)) => {
                let p2 = if p1 < s.len() && s[p1] == 10 {  // '\n'
                    p1 + 1
                } else {
                    p1
                };
                if pos < p2 <= s.len() {
                    let rest = spec_instrs(s, p2);
                    (seq![i] + rest.0, rest.1)
                } else {
                    (seq![i], p2)
                }
            },
        }
    }
}

/// What `program_parser` yields: the greedy repetition's instructions and
/// stop position, or nothing when not even one instruction parses.
pub open spec fn spec_program_parser(s: Seq<u8>) -> Option<(Seq<AssemblerInstrModel>, int)> {
    let r = spec_instrs(s, 0);
    if r.0.len() == 0 {
        None
    } else {
        Some(r)
    }
}

/// The greedy repetition never parses more instructions than there are bytes
/// and stops inside the input.
pub proof fn lemma_spec_instrs_bounds(s: Seq<u8>, pos: int)
    requires
        0 <= pos <= s.len(),
    ensures
        spec_instrs(s, pos).0.len() <= s.len() - pos,
        pos <= spec_instrs(s, pos).1 <= s.len(),
    decreases s.len() - pos,
{
    lemma_parse_instr_advances(s, pos);
    match spec_parse_instr(s, pos) {
        None => {},
        Some(t) => {
            let p1 = t.1;
            let p2 = if p1 < s.len() && s[p1] == 10 {
                p1 + 1
            } else {
                p1
            };
            if pos < p2 <= s.len() {
                lemma_spec_instrs_bounds(s, p2);
            }
        },
    }
}

/// Parse a program from the start of `input`, as `spec_program_parser`
/// describes: the parsed instructions and how many bytes they consumed, or
/// nothing when no instruction parses at all.
pub fn program_parser(input: &str) -> (r: Option<(Program, usize)>)
    requires
        input.is_ascii(),
    ensures
        (match spec_program_parser(input.spec_bytes()) {
            Some((instrs, end)) => r matches Some(t) && t.0@ == instrs && t.1 == end,
            None => r is None,
        }),
{
    let ghost s = input.spec_bytes();
    let bytes = input.as_bytes();
    let mut instrs: Vec<AssemblerInstr> = Vec::new();
    let mut pos: usize = 0;
    let mut done = false;
    proof {
        assert(instrs@.map_values(|x: AssemblerInstr| x@) =~= Seq::<AssemblerInstrModel>::empty());
    }
    while !done
        invariant
            input.is_ascii(),
            s == input.spec_bytes(),
            bytes@ == s,
            pos <= s.len(),
            spec_instrs(s, 0).0 =~= instrs@.map_values(|x: AssemblerInstr| x@) + spec_instrs(
                s,
                pos as int,
            ).0,
            spec_instrs(s, 0).1 == spec_instrs(s, pos as int).1,
            done ==> spec_instrs(s, pos as int).0.len() == 0,
            done ==> spec_instrs(s, pos as int).1 == pos,
        decreases 2 * (s.len() - pos) + (if done {
            0int
        } else {
            1int
        }),
    {
        proof {
            lemma_parse_instr_advances(s, pos as int);
        }
        match parse_instr(input, pos) {
            None => {
                done = true;
            },
            Some((instr, p1)) => {
                let p2 = if p1 < bytes.len() && bytes[p1] == 10 {  // '\n'
                    p1 + 1
                } else {
                    p1
                };
                proof {
                    let old_map = instrs@.map_values(|x: AssemblerInstr| x@);
                    assert(instrs@.push(instr).map_values(|x: AssemblerInstr| x@) =~= old_map.push(
                        instr@,
                    ));
                    assert(spec_instrs(s, pos as int).0 =~= seq![instr@] + spec_instrs(
                        s,
                        p2 as int,
                    ).0);
                    assert(old_map.push(instr@) + spec_instrs(s, p2 as int).0 =~= old_map + (
                    seq![instr@] + spec_instrs(s, p2 as int).0));
                }
                instrs.push(instr);
                pos = p2;
            },
        }
    }
    if instrs.len() == 0 {
        None
    } else {
        Some((Program { instrs }, pos))
    }
}

} // verus!
