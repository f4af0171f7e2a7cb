//! The virtual machine core: register file, program counter, program buffer,
//! comparison flag and remainder slot, with a fetch-decode-execute step and a
//! run-to-completion loop.
//!
//! Instructions are four bytes wide: an opcode byte and three operand bytes.
//! `PAD` alone consumes a single byte. An instruction whose four-byte slot
//! extends past the end of the program buffer is not executed; the machine
//! reports end-of-program instead, so a truncated tail never causes an
//! out-of-bounds read.
//!
//! Conditions that the underlying arithmetic leaves open are given explicit
//! outcomes here: division by zero is the fatal error `DivideByZero`; an
//! operand byte naming a register at or past the register count is the fatal
//! error `RegisterOutOfRange`; a jump whose target would leave the counter's
//! range is the fatal error `PcOutOfRange`. `ADD`, `SUB`, `MUL`, `INC` and
//! `DEC` wrap on overflow, and `DIV` of `i32::MIN` by `-1` wraps to
//! `i32::MIN` with remainder `0`, as two's-complement wrapping arithmetic.

use crate::opcodes::{opcode_from_byte, Opcode};
use crate::types::BoundedUsize;
use vstd::prelude::*;

verus! {

broadcast use vstd::array::group_array_axioms;

/// What a single execution step can report. `HaltEncountered` and
/// `ReachedEof` are ordinary terminations; `IllegalOpcode` is recoverable;
/// the rest are fatal.
#[derive(Debug, Clone, Copy, PartialEq, Eq, Structural)]
pub enum Error {
    HaltEncountered,
    IllegalOpcode,
    InstructionNotParsed,
    ReachedEof,
    DivideByZero,
    RegisterOutOfRange,
    PcOutOfRange,
}

/// The machine's run state. `Resumed` marks execution that continued past an
/// illegal opcode; `Halted` and `ReachedEof` are normal terminal states;
/// `Crashed` is the fatal terminal state.
#[derive(Debug, Default, Clone, Copy, PartialEq, Eq, Structural)]
pub enum State {
    #[default]
    Executing,
    Resumed,
    Halted,
    ReachedEof,
    Crashed,
}

/// The mathematical value of a machine: what each field holds, with the
/// program counter as an unbounded integer.
pub ghost struct VmModel {
    pub registers: Seq<i32>,
    pub pc: int,
    pub program: Seq<u8>,
    pub remainder: u32,
    pub equal_flag: bool,
    pub state: State,
}

/// A register-based virtual machine with eight 32-bit signed registers.
#[derive(Debug, Clone)]
pub struct Vm {
    pub registers: [i32; 8],
    pub pc: usize,
    pub program: Vec<u8>,
    pub remainder: u32,
    pub equal_flag: bool,
    pub state: State,
}

impl View for Vm {
    type V = VmModel;

    open spec fn view(&self) -> VmModel {
        VmModel {
            registers: self.registers@,
            pc: self.pc as int,
            program: self.program@,
            remainder: self.remainder,
            equal_flag: self.equal_flag,
            state: self.state,
        }
    }
}

/// The 16-bit big-endian value held at positions `i` and `i + 1`.
pub open spec fn read16(p: Seq<u8>, i: int) -> u16 {
    (p[i] * 256 + p[i + 1]) as u16
}

/// A signed value reinterpreted as the `u32` with the same bit pattern.
pub open spec fn wrap_u32(v: i32) -> u32 {
    if v < 0 {
        (v + 0x1_0000_0000) as u32
    } else {
        v as u32
    }
}

/// Truncating division as the machine performs it: quotient rounded toward
/// zero, with the one overflowing case `i32::MIN / -1` wrapping to
/// `i32::MIN`. Meaningful only for `b != 0`.
pub open spec fn div_trunc(a: i32, b: i32) -> i32 {
    let x = a as int;
    let d = b as int;
    let q = if x == 0 {
        0
    } else if x > 0 && d > 0 {
        x / d
    } else if x < 0 && d < 0 {
        (x * -1) / (d * -1)
    } else if x < 0 {
        ((x * -1) / d) * -1
    } else {
        (x / (d * -1)) * -1
    };
    if q < i32::MIN || q > i32::MAX {
        i32::MIN
    } else {
        q as i32
    }
}

/// Truncating remainder as the machine performs it: the remainder carries the
/// dividend's sign, and `i32::MIN % -1` wraps to `0`. Meaningful only for
/// `b != 0`. The remainder always lies strictly within `(-|b|, |b|)`, so the
/// final range guard never fires; it mirrors the checked operation's shape.
pub open spec fn rem_trunc(a: i32, b: i32) -> i32 {
    if a == i32::MIN && b == -1 {
        0
    } else {
        let x = a as int;
        let d = b as int;
        let out = if x == 0 {
            0
        } else if x > 0 && d > 0 {
            x % d
        } else if x < 0 && d < 0 {
            ((x * -1) % (d * -1)) * -1
        } else if x < 0 {
            ((x * -1) % d) * -1
        } else {
            x % (d * -1)
        };
        if out < i32::MIN || out > i32::MAX {
            0
        } else {
            out as i32
        }
    }
}

/// Whether an opcode occupies a full four-byte instruction slot. Only `PAD`
/// is a single filler byte.
pub open spec fn full_slot(op: Opcode) -> bool {
    op != Opcode::PAD
}

/// Effect of `LOAD` with the counter at the first operand byte: the 16-bit
/// big-endian immediate, zero-extended, lands in the named register.
pub open spec fn step_load(m: VmModel) -> (VmModel, Result<(), Error>) {
    let r = m.program[m.pc] as int;
    let v = read16(m.program, m.pc + 1) as i32;
    let m2 = VmModel { pc: m.pc + 3, ..m };
    if r >= 8 {
        (m2, Err(Error::RegisterOutOfRange))
    } else {
        (VmModel { registers: m.registers.update(r, v), ..m2 }, Ok(()))
    }
}

/// Effect of the three-register arithmetic instructions with the counter at
/// the first operand byte: sources at the first two operand bytes, the
/// destination at the third.
pub open spec fn step_binary(m: VmModel, op: Opcode) -> (VmModel, Result<(), Error>) {
    let r0 = m.program[m.pc] as int;
    let r1 = m.program[m.pc + 1] as int;
    let rd = m.program[m.pc + 2] as int;
    let m2 = VmModel { pc: m.pc + 3, ..m };
    if r0 >= 8 || r1 >= 8 || rd >= 8 {
        (m2, Err(Error::RegisterOutOfRange))
    } else {
        let a = m.registers[r0];
        let b = m.registers[r1];
        match op {
            Opcode::ADD => (
                VmModel {
                    registers: m.registers.update(rd, vstd::wrapping::i32_specs::wrapping_add(a, b)),
                    ..m2
                },
                Ok(()),
            ),
            Opcode::SUB => (
                VmModel {
                    registers: m.registers.update(rd, vstd::wrapping::i32_specs::wrapping_sub(a, b)),
                    ..m2
                },
                Ok(()),
            ),
            Opcode::MUL => (
                VmModel {
                    registers: m.registers.update(rd, vstd::wrapping::i32_specs::wrapping_mul(a, b)),
                    ..m2
                },
                Ok(()),
            ),
            Opcode::DIV => if b == 0 {
                (m2, Err(Error::DivideByZero))
            } else {
                (
                    VmModel {
                        registers: m.registers.update(rd, div_trunc(a, b)),
                        remainder: wrap_u32(rem_trunc(a, b)),
                        ..m2
                    },
                    Ok(()),
                )
            },
            _ => (m2, Ok(())),
        }
    }
}

/// Effect of `JUMP` with the counter at the first operand byte: the counter
/// becomes the absolute offset held in the named register.
pub open spec fn step_jump(m: VmModel) -> (VmModel, Result<(), Error>) {
    let r = m.program[m.pc] as int;
    let m2 = VmModel { pc: m.pc + 3, ..m };
    if r >= 8 {
        (m2, Err(Error::RegisterOutOfRange))
    } else {
        let t = m.registers[r];
        if t < 0 {
            (m2, Err(Error::PcOutOfRange))
        } else {
            (VmModel { pc: t as int, ..m2 }, Ok(()))
        }
    }
}

/// Effect of `JF` with the counter at the first operand byte: the register
/// value is added to the counter as it stands after the whole instruction.
pub open spec fn step_jf(m: VmModel) -> (VmModel, Result<(), Error>) {
    let r = m.program[m.pc] as int;
    let m2 = VmModel { pc: m.pc + 3, ..m };
    if r >= 8 {
        (m2, Err(Error::RegisterOutOfRange))
    } else {
        let v = m.registers[r];
        if v < 0 || m.pc + 3 + v > usize::MAX {
            (m2, Err(Error::PcOutOfRange))
        } else {
            (VmModel { pc: m.pc + 3 + v, ..m2 }, Ok(()))
        }
    }
}

/// Effect of `JB` with the counter at the first operand byte: the register
/// value is subtracted from the counter as it stands after the whole
/// instruction.
pub open spec fn step_jb(m: VmModel) -> (VmModel, Result<(), Error>) {
    let r = m.program[m.pc] as int;
    let m2 = VmModel { pc: m.pc + 3, ..m };
    if r >= 8 {
        (m2, Err(Error::RegisterOutOfRange))
    } else {
        let v = m.registers[r];
        if v < 0 || m.pc + 3 - v < 0 {
            (m2, Err(Error::PcOutOfRange))
        } else {
            (VmModel { pc: m.pc + 3 - v, ..m2 }, Ok(()))
        }
    }
}

/// Effect of the comparison instructions with the counter at the first
/// operand byte: the shared comparison flag takes the result.
pub open spec fn step_compare(m: VmModel, op: Opcode) -> (VmModel, Result<(), Error>) {
    let r0 = m.program[m.pc] as int;
    let r1 = m.program[m.pc + 1] as int;
    let m2 = VmModel { pc: m.pc + 3, ..m };
    if r0 >= 8 || r1 >= 8 {
        (m2, Err(Error::RegisterOutOfRange))
    } else {
        let a = m.registers[r0];
        let b = m.registers[r1];
        let flag = match op {
            Opcode::EQ => a == b,
            Opcode::NE => a != b,
            Opcode::GT => a > b,
            Opcode::LT => a < b,
            Opcode::GTE => a >= b,
            Opcode::LTE => a <= b,
            _ => m.equal_flag,
        };
        (VmModel { equal_flag: flag, ..m2 }, Ok(()))
    }
}

/// Effect of `JE` (`when` true) and `JNE` (`when` false) with the counter at
/// the first operand byte: a `JUMP` taken only if the comparison flag equals
/// `when`, a plain advance otherwise.
pub open spec fn step_cond_jump(m: VmModel, when: bool) -> (VmModel, Result<(), Error>) {
    let r = m.program[m.pc] as int;
    let m2 = VmModel { pc: m.pc + 3, ..m };
    if r >= 8 {
        (m2, Err(Error::RegisterOutOfRange))
    } else if m.equal_flag == when {
        let t = m.registers[r];
        if t < 0 {
            (m2, Err(Error::PcOutOfRange))
        } else {
            (VmModel { pc: t as int, ..m2 }, Ok(()))
        }
    } else {
        (m2, Ok(()))
    }
}

/// Effect of `INC` (`up` true) and `DEC` (`up` false) with the counter at the
/// first operand byte: the named register moves by one, wrapping on overflow.
pub open spec fn step_incdec(m: VmModel, up: bool) -> (VmModel, Result<(), Error>) {
    let r = m.program[m.pc] as int;
    let m2 = VmModel { pc: m.pc + 3, ..m };
    if r >= 8 {
        (m2, Err(Error::RegisterOutOfRange))
    } else {
        let v = m.registers[r];
        let nv = if up {
            vstd::wrapping::i32_specs::wrapping_add(v, 1)
        } else {
            vstd::wrapping::i32_specs::wrapping_sub(v, 1)
        };
        (VmModel { registers: m.registers.update(r, nv), ..m2 }, Ok(()))
    }
}

/// One fetch-decode-execute step. A counter at or past the end of the
/// program, or an instruction slot that would extend past the end, reports
/// end-of-program and moves nothing but the run state. Otherwise the opcode
/// byte is decoded, the counter advances past it, and the opcode's own
/// transition applies.
pub open spec fn step(m: VmModel) -> (VmModel, Result<(), Error>) {
    if m.pc >= m.program.len() {
        (VmModel { state: State::ReachedEof, ..m }, Err(Error::ReachedEof))
    } else {
        let op = opcode_from_byte(m.program[m.pc]);
        if full_slot(op) && m.pc + 4 > m.program.len() {
            (VmModel { state: State::ReachedEof, ..m }, Err(Error::ReachedEof))
        } else {
            let m1 = VmModel { pc: m.pc + 1, ..m };
            match op {
                Opcode::PAD => (m1, Ok(())),
                Opcode::HALT => (VmModel { pc: m1.pc + 3, ..m1 }, Err(Error::HaltEncountered)),
                Opcode::ILL => (VmModel { pc: m1.pc + 3, ..m1 }, Err(Error::IllegalOpcode)),
                Opcode::LOAD => step_load(m1),
                Opcode::ADD => step_binary(m1, Opcode::ADD),
                Opcode::SUB => step_binary(m1, Opcode::SUB),
                Opcode::MUL => step_binary(m1, Opcode::MUL),
                Opcode::DIV => step_binary(m1, Opcode::DIV),
                Opcode::JUMP => step_jump(m1),
                Opcode::JF => step_jf(m1),
                Opcode::JB => step_jb(m1),
                Opcode::EQ => step_compare(m1, Opcode::EQ),
                Opcode::NE => step_compare(m1, Opcode::NE),
                Opcode::GT => step_compare(m1, Opcode::GT),
                Opcode::LT => step_compare(m1, Opcode::LT),
                Opcode::GTE => step_compare(m1, Opcode::GTE),
                Opcode::LTE => step_compare(m1, Opcode::LTE),
                Opcode::JE => step_cond_jump(m1, true),
                Opcode::JNE => step_cond_jump(m1, false),
                Opcode::INC => step_incdec(m1, true),
                Opcode::DEC => step_incdec(m1, false),
            }
        }
    }
}

/// One iteration of the run loop: a step from the `Executing` state, then
/// the run state recording how the step ended.
pub open spec fn run_step(m: VmModel) -> VmModel {
    let m0 = VmModel { state: State::Executing, ..m };
    let m1 = step(m0).0;
    match step(m0).1 {
        Ok(()) => VmModel { state: State::Executing, ..m1 },
        Err(Error::ReachedEof) => VmModel { state: State::ReachedEof, ..m1 },
        Err(Error::HaltEncountered) => VmModel { state: State::Halted, ..m1 },
        Err(Error::IllegalOpcode) => VmModel { state: State::Resumed, ..m1 },
        Err(_) => VmModel { state: State::Crashed, ..m1 },
    }
}

/// What the step underlying `run_step(m)` reports.
pub open spec fn run_step_result(m: VmModel) -> Result<(), Error> {
    step(VmModel { state: State::Executing, ..m }).1
}

/// The machine after `n` iterations of the run loop.
pub open spec fn run_steps(m: VmModel, n: nat) -> VmModel
    decreases n,
{
    if n == 0 {
        m
    } else {
        run_step(run_steps(m, (n - 1) as nat))
    }
}

/// The run states in which the run loop stops: every state but active
/// execution. `Halted`, `ReachedEof` and `Crashed` are terminal; `Resumed`
/// marks a decoded illegal opcode, a stop from which a further call may
/// resume.
pub open spec fn stops_run(s: State) -> bool {
    s != State::Executing
}

/// The registers after writing each `(index, value)` pair of `fills` in
/// order into `regs`; later pairs overwrite earlier ones.
pub open spec fn apply_fills(regs: Seq<i32>, fills: Seq<(usize, i32)>) -> Seq<i32>
    decreases fills.len(),
{
    if fills.len() == 0 {
        regs
    } else {
        apply_fills(regs, fills.drop_last()).update(fills.last().0 as int, fills.last().1)
    }
}

/// Eight zeroed registers.
pub open spec fn zero_registers() -> Seq<i32> {
    seq![0i32, 0i32, 0i32, 0i32, 0i32, 0i32, 0i32, 0i32]
}

impl Vm {
    /// Build a machine: optionally pre-filled registers (each index must
    /// name one of the eight registers), an optional starting counter, the
    /// program buffer, and optional remainder and comparison-flag values;
    /// whatever is absent is zero or false, and the machine starts in
    /// `Executing`.
    pub fn new(
        fill_registers: Option<Vec<(usize, i32)>>,
        pc: Option<usize>,
        program: Vec<u8>,
        remainder: Option<u32>,
        equal_flag: Option<bool>,
    ) -> (r: Vm)
        requires
            fill_registers matches Some(f) ==> forall|i: int|
                0 <= i < f@.len() ==> #[trigger] f@[i].0 < 8,
        ensures
            r@.registers == match fill_registers {
                Some(f) => apply_fills(zero_registers(), f@),
                None => zero_registers(),
            },
            r@.pc == match pc {
                Some(p) => p as int,
                None => 0,
            },
            r@.program == program@,
            r@.remainder == match remainder {
                Some(v) => v,
                None => 0u32,
            },
            r@.equal_flag == match equal_flag {
                Some(b) => b,
                None => false,
            },
            r@.state == State::Executing,
    {
        let mut registers: [i32; 8] = [0, 0, 0, 0, 0, 0, 0, 0];
        proof {
            assert(registers@ =~= zero_registers());
        }
        if let Some(fill_registers) = fill_registers {
            let mut i: usize = 0;
            while i < fill_registers.len()
                invariant
                    i <= fill_registers.len(),
                    forall|k: int|
                        0 <= k < fill_registers@.len() ==> #[trigger] fill_registers@[k].0 < 8,
                    registers@ == apply_fills(zero_registers(), fill_registers@.take(i as int)),
                decreases fill_registers.len() - i,
            {
                let (reg_index, value) = fill_registers[i];
                let filled_register = BoundedUsize::<0, 8>::fallible_new(reg_index);
                match filled_register {
                    Ok(bounded) => {
                        registers[bounded.value()] = value;
                    },
                    Err(_) => {
                        proof {
                            assert(false);
                        }
                    },
                }
                proof {
                    assert(fill_registers@.take(i + 1).drop_last() =~= fill_registers@.take(
                        i as int,
                    ));
                }
                i = i + 1;
            }
            proof {
                assert(fill_registers@.take(fill_registers@.len() as int) =~= fill_registers@);
            }
        }
        let pc = match pc {
            Some(p) => p,
            None => 0,
        };
        let remainder = match remainder {
            Some(v) => v,
            None => 0,
        };
        let equal_flag = match equal_flag {
            Some(b) => b,
            None => false,
        };
        Vm { registers, pc, program, remainder, equal_flag, state: State::Executing }
    }

    /// Read the opcode byte at the counter and advance past it; unmapped
    /// bytes decode to `ILL`.
    pub fn decode_opcode(&mut self) -> (r: Opcode)
        requires
            old(self).pc < old(self).program.len(),
        ensures
            r == opcode_from_byte(old(self)@.program[old(self)@.pc]),
            final(self)@ == (VmModel { pc: old(self)@.pc + 1, ..old(self)@ }),
    {
        let opcode = Opcode::from(self.program[self.pc]);
        self.pc += 1;
        opcode
    }

    /// Append one byte to the program buffer.
    pub fn push_byte(&mut self, value: u8)
        ensures
            final(self)@ == (VmModel { program: old(self)@.program.push(value), ..old(self)@ }),
    {
        self.program.push(value);
    }

    /// Append a buffer of bytes to the program buffer, in order.
    pub fn push_bytes(&mut self, values: Vec<u8>)
        ensures
            final(self)@ == (VmModel { program: old(self)@.program + values@, ..old(self)@ }),
    {
        let mut i: usize = 0;
        while i < values.len()
            invariant
                i <= values.len(),
                self@ == (VmModel {
                    program: old(self)@.program + values@.take(i as int),
                    ..old(self)@
                }),
            decreases values.len() - i,
        {
            self.program.push(values[i]);
            proof {
                assert(old(self)@.program + values@.take(i + 1) =~= (old(self)@.program
                    + values@.take(i as int)).push(values@[i as int]));
            }
            i = i + 1;
        }
        proof {
            assert(values@.take(values@.len() as int) =~= values@);
        }
    }

    /// Run steps until the machine stops. `HALT` and walking off the end of
    /// the program stop the run as its two successful terminal states; a
    /// fatal error stops it as `Crashed` with the step's own error. A
    /// decoded illegal opcode also stops the run — the default policy treats
    /// it as execution-halting — returning `IllegalOpcode` with the machine
    /// `Resumed` and the counter already past the illegal slot, so a caller
    /// preferring the skip-and-continue policy resumes by calling `run`
    /// again.
    ///
    /// A run that does not stop within `usize::MAX` steps — a budget no real
    /// execution exhausts — is abandoned as `Crashed` with
    /// `InstructionNotParsed`.
    pub fn run(&mut self) -> (r: Result<(), Error>)
        ensures
            stops_run(final(self)@.state),
            r is Ok <==> (final(self)@.state == State::Halted || final(self)@.state
                == State::ReachedEof),
            final(self)@.state == State::Resumed ==> r == Err::<(), Error>(Error::IllegalOpcode),
            (exists|n: nat|
                1 <= n <= usize::MAX && (forall|k: nat|
                    1 <= k < n ==> !stops_run(#[trigger] run_steps(old(self)@, k).state)) && (
                if stops_run(#[trigger] run_steps(old(self)@, n).state) {
                    final(self)@ == run_steps(old(self)@, n) && ((final(self)@.state
                        == State::Crashed || final(self)@.state == State::Resumed) ==> r
                        == run_step_result(run_steps(old(self)@, (n - 1) as nat)))
                } else {
                    n == usize::MAX && final(self)@ == (VmModel {
                        state: State::Crashed,
                        ..run_steps(old(self)@, n)
                    }) && r == Err::<(), Error>(Error::InstructionNotParsed)
                })),
    {
        let mut steps: usize = 0;
        proof {
            assert(self@ == run_steps(old(self)@, 0));
        }
        loop
            invariant
                self@ == run_steps(old(self)@, steps as nat),
                forall|j: nat|
                    1 <= j <= steps ==> !stops_run(#[trigger] run_steps(old(self)@, j).state),
            decreases usize::MAX - steps,
        {
            if steps == usize::MAX {
                self.state = State::Crashed;
                return Err(Error::InstructionNotParsed);
            }
            let ghost prev = self@;
            let result = self.run_once();
            match result {
                Ok(_unit) => self.state = State::Executing,
                Err(Error::ReachedEof) => self.state = State::ReachedEof,
                Err(Error::HaltEncountered) => self.state = State::Halted,
                Err(Error::IllegalOpcode) => self.state = State::Resumed,
                Err(_) => self.state = State::Crashed,
            }
            steps = steps + 1;
            proof {
                assert(self@ == run_step(prev));
                assert(self@ == run_steps(old(self)@, steps as nat));
            }
            if self.state == State::Halted || self.state == State::ReachedEof {
                return Ok(());
            } else if self.state == State::Resumed || self.state == State::Crashed {
                proof {
                    assert(result == run_step_result(run_steps(old(self)@, (steps - 1) as nat)));
                }
                return result;
            }
            proof {
                assert forall|j: nat|
                    1 <= j <= steps implies !stops_run(
                    #[trigger] run_steps(old(self)@, j).state,
                ) by {
                    if j == steps {
                        assert(run_steps(old(self)@, j) == self@);
                    }
                };
            }
        }
    }

    /// Mark the machine as executing and perform one step.
    pub fn run_once(&mut self) -> (r: Result<(), Error>)
        ensures
            final(self)@ == step(VmModel { state: State::Executing, ..old(self)@ }).0,
            r == step(VmModel { state: State::Executing, ..old(self)@ }).1,
    {
        self.state = State::Executing;
        self.execute_instruction()
    }

    /// One fetch-decode-execute step, as `step` describes it.
    fn execute_instruction(&mut self) -> (r: Result<(), Error>)
        ensures
            final(self)@ == step(old(self)@).0,
            r == step(old(self)@).1,
    {
        if self.pc >= self.program.len() {
            self.state = State::ReachedEof;
            return Err(Error::ReachedEof);
        }
        let peek = Opcode::from(self.program[self.pc]);
        if !matches!(peek, Opcode::PAD) && self.program.len() - self.pc < 4 {
            self.state = State::ReachedEof;
            return Err(Error::ReachedEof);
        }
        let decoded = self.decode_opcode();
        match decoded {
            Opcode::PAD => {
                self.pad();
                Ok(())
            },
            Opcode::HALT => self.halt(),
            Opcode::LOAD => self.load(),
            Opcode::ADD => self.add(),
            Opcode::SUB => self.sub(),
            Opcode::MUL => self.mul(),
            Opcode::DIV => self.div(),
            Opcode::JUMP => self.jump(),
            Opcode::JF => self.jf(),
            Opcode::JB => self.jb(),
            Opcode::EQ => self.eq(),
            Opcode::NE => self.ne(),
            Opcode::GT => self.gt(),
            Opcode::LT => self.lt(),
            Opcode::GTE => self.gte(),
            Opcode::LTE => self.lte(),
            Opcode::JE => self.je(),
            Opcode::JNE => self.jne(),
            Opcode::INC => self.inc(),
            Opcode::DEC => self.dec(),
            Opcode::ILL => self.ill(),
        }
    }

    /// The single-byte filler instruction: no effect beyond the fetch.
    fn pad(&mut self)
        ensures
            final(self)@ == old(self)@,
    {
    }

    /// `HALT`: consume the rest of the slot and report the halt.
    fn halt(&mut self) -> (r: Result<(), Error>)
        requires
            old(self).pc + 3 <= old(self).program.len(),
        ensures
            final(self)@ == (VmModel { pc: old(self)@.pc + 3, ..old(self)@ }),
            r == Err::<(), Error>(Error::HaltEncountered),
    {
        self.pc += 3;
        Err(Error::HaltEncountered)
    }

    /// An unmapped opcode byte: consume the rest of the slot and report it.
    fn ill(&mut self) -> (r: Result<(), Error>)
        requires
            old(self).pc + 3 <= old(self).program.len(),
        ensures
            final(self)@ == (VmModel { pc: old(self)@.pc + 3, ..old(self)@ }),
            r == Err::<(), Error>(Error::IllegalOpcode),
    {
        self.pc += 3;
        Err(Error::IllegalOpcode)
    }

    /// `LOAD`, with the counter at the first operand byte.
    fn load(&mut self) -> (r: Result<(), Error>)
        requires
            old(self).pc + 3 <= old(self).program.len(),
        ensures
            final(self)@ == step_load(old(self)@).0,
            r == step_load(old(self)@).1,
    {
        let register = self.next_8bits();
        let number = self.next_16bits();
        if register < 8 {
            self.registers[register as usize] = number as i32;
            Ok(())
        } else {
            Err(Error::RegisterOutOfRange)
        }
    }

    /// `ADD`, with the counter at the first operand byte.
    fn add(&mut self) -> (r: Result<(), Error>)
        requires
            old(self).pc + 3 <= old(self).program.len(),
        ensures
            final(self)@ == step_binary(old(self)@, Opcode::ADD).0,
            r == step_binary(old(self)@, Opcode::ADD).1,
    {
        let register0 = self.next_register();
        let register1 = self.next_register();
        let dest = self.next_8bits();
        match (register0, register1) {
            (Ok(a), Ok(b)) => if dest < 8 {
                self.registers[dest as usize] = a.wrapping_add(b);
                Ok(())
            } else {
                Err(Error::RegisterOutOfRange)
            },
            _ => Err(Error::RegisterOutOfRange),
        }
    }

    /// `SUB`, with the counter at the first operand byte.
    fn sub(&mut self) -> (r: Result<(), Error>)
        requires
            old(self).pc + 3 <= old(self).program.len(),
        ensures
            final(self)@ == step_binary(old(self)@, Opcode::SUB).0,
            r == step_binary(old(self)@, Opcode::SUB).1,
    {
        let register0 = self.next_register();
        let register1 = self.next_register();
        let dest = self.next_8bits();
        match (register0, register1) {
            (Ok(a), Ok(b)) => if dest < 8 {
                self.registers[dest as usize] = a.wrapping_sub(b);
                Ok(())
            } else {
                Err(Error::RegisterOutOfRange)
            },
            _ => Err(Error::RegisterOutOfRange),
        }
    }

    /// `MUL`, with the counter at the first operand byte.
    fn mul(&mut self) -> (r: Result<(), Error>)
        requires
            old(self).pc + 3 <= old(self).program.len(),
        ensures
            final(self)@ == step_binary(old(self)@, Opcode::MUL).0,
            r == step_binary(old(self)@, Opcode::MUL).1,
    {
        let register0 = self.next_register();
        let register1 = self.next_register();
        let dest = self.next_8bits();
        match (register0, register1) {
            (Ok(a), Ok(b)) => if dest < 8 {
                self.registers[dest as usize] = a.wrapping_mul(b);
                Ok(())
            } else {
                Err(Error::RegisterOutOfRange)
            },
            _ => Err(Error::RegisterOutOfRange),
        }
    }

    /// `DIV`, with the counter at the first operand byte: quotient to the
    /// destination register, remainder to the remainder slot; division by
    /// zero is fatal.
    fn div(&mut self) -> (r: Result<(), Error>)
        requires
            old(self).pc + 3 <= old(self).program.len(),
        ensures
            final(self)@ == step_binary(old(self)@, Opcode::DIV).0,
            r == step_binary(old(self)@, Opcode::DIV).1,
    {
        let register0 = self.next_register();
        let register1 = self.next_register();
        let dest = self.next_8bits();
        match (register0, register1) {
            (Ok(a), Ok(b)) => {
                if dest >= 8 {
                    return Err(Error::RegisterOutOfRange);
                }
                if b == 0 {
                    return Err(Error::DivideByZero);
                }
                let q = match a.checked_div(b) {
                    Some(q) => q,
                    None => i32::MIN,
                };
                let rem = match a.checked_rem(b) {
                    Some(m) => m,
                    None => 0,
                };
                self.registers[dest as usize] = q;
                self.remainder = 0u32.wrapping_add_signed(rem);
                Ok(())
            },
            _ => Err(Error::RegisterOutOfRange),
        }
    }

    /// `JUMP`, with the counter at the first operand byte.
    fn jump(&mut self) -> (r: Result<(), Error>)
        requires
            old(self).pc + 3 <= old(self).program.len(),
        ensures
            final(self)@ == step_jump(old(self)@).0,
            r == step_jump(old(self)@).1,
    {
        let target = self.next_register();
        let _padding = self.next_16bits();
        match target {
            Ok(t) => if t < 0 {
                Err(Error::PcOutOfRange)
            } else {
                self.pc = t as usize;
                Ok(())
            },
            Err(e) => Err(e),
        }
    }

    /// `JF`, with the counter at the first operand byte.
    fn jf(&mut self) -> (r: Result<(), Error>)
        requires
            old(self).pc + 3 <= old(self).program.len(),
        ensures
            final(self)@ == step_jf(old(self)@).0,
            r == step_jf(old(self)@).1,
    {
        let value = self.next_register();
        let _padding = self.next_16bits();
        match value {
            Ok(v) => if v < 0 {
                Err(Error::PcOutOfRange)
            } else {
                match self.pc.checked_add(v as usize) {
                    Some(np) => {
                        self.pc = np;
                        Ok(())
                    },
                    None => Err(Error::PcOutOfRange),
                }
            },
            Err(e) => Err(e),
        }
    }

    /// `JB`, with the counter at the first operand byte.
    fn jb(&mut self) -> (r: Result<(), Error>)
        requires
            old(self).pc + 3 <= old(self).program.len(),
        ensures
            final(self)@ == step_jb(old(self)@).0,
            r == step_jb(old(self)@).1,
    {
        let value = self.next_register();
        let _padding = self.next_16bits();
        match value {
            Ok(v) => if v < 0 {
                Err(Error::PcOutOfRange)
            } else if (v as usize) > self.pc {
                Err(Error::PcOutOfRange)
            } else {
                self.pc -= v as usize;
                Ok(())
            },
            Err(e) => Err(e),
        }
    }

    /// `EQ`, with the counter at the first operand byte.
    fn eq(&mut self) -> (r: Result<(), Error>)
        requires
            old(self).pc + 3 <= old(self).program.len(),
        ensures
            final(self)@ == step_compare(old(self)@, Opcode::EQ).0,
            r == step_compare(old(self)@, Opcode::EQ).1,
    {
        let register0 = self.next_register();
        let register1 = self.next_register();
        let _padding = self.next_8bits();
        match (register0, register1) {
            (Ok(a), Ok(b)) => {
                self.equal_flag = a == b;
                Ok(())
            },
            _ => Err(Error::RegisterOutOfRange),
        }
    }

    /// `NE`, with the counter at the first operand byte.
    fn ne(&mut self) -> (r: Result<(), Error>)
        requires
            old(self).pc + 3 <= old(self).program.len(),
        ensures
            final(self)@ == step_compare(old(self)@, Opcode::NE).0,
            r == step_compare(old(self)@, Opcode::NE).1,
    {
        let register0 = self.next_register();
        let register1 = self.next_register();
        let _padding = self.next_8bits();
        match (register0, register1) {
            (Ok(a), Ok(b)) => {
                self.equal_flag = a != b;
                Ok(())
            },
            _ => Err(Error::RegisterOutOfRange),
        }
    }

    /// `GT`, with the counter at the first operand byte.
    fn gt(&mut self) -> (r: Result<(), Error>)
        requires
            old(self).pc + 3 <= old(self).program.len(),
        ensures
            final(self)@ == step_compare(old(self)@, Opcode::GT).0,
            r == step_compare(old(self)@, Opcode::GT).1,
    {
        let register0 = self.next_register();
        let register1 = self.next_register();
        let _padding = self.next_8bits();
        match (register0, register1) {
            (Ok(a), Ok(b)) => {
                self.equal_flag = a > b;
                Ok(())
            },
            _ => Err(Error::RegisterOutOfRange),
        }
    }

    /// `LT`, with the counter at the first operand byte.
    fn lt(&mut self) -> (r: Result<(), Error>)
        requires
            old(self).pc + 3 <= old(self).program.len(),
        ensures
            final(self)@ == step_compare(old(self)@, Opcode::LT).0,
            r == step_compare(old(self)@, Opcode::LT).1,
    {
        let register0 = self.next_register();
        let register1 = self.next_register();
        let _padding = self.next_8bits();
        match (register0, register1) {
            (Ok(a), Ok(b)) => {
                self.equal_flag = a < b;
                Ok(())
            },
            _ => Err(Error::RegisterOutOfRange),
        }
    }

    /// `GTE`, with the counter at the first operand byte.
    fn gte(&mut self) -> (r: Result<(), Error>)
        requires
            old(self).pc + 3 <= old(self).program.len(),
        ensures
            final(self)@ == step_compare(old(self)@, Opcode::GTE).0,
            r == step_compare(old(self)@, Opcode::GTE).1,
    {
        let register0 = self.next_register();
        let register1 = self.next_register();
        let _padding = self.next_8bits();
        match (register0, register1) {
            (Ok(a), Ok(b)) => {
                self.equal_flag = a >= b;
                Ok(())
            },
            _ => Err(Error::RegisterOutOfRange),
        }
    }

    /// `LTE`, with the counter at the first operand byte.
    fn lte(&mut self) -> (r: Result<(), Error>)
        requires
            old(self).pc + 3 <= old(self).program.len(),
        ensures
            final(self)@ == step_compare(old(self)@, Opcode::LTE).0,
            r == step_compare(old(self)@, Opcode::LTE).1,
    {
        let register0 = self.next_register();
        let register1 = self.next_register();
        let _padding = self.next_8bits();
        match (register0, register1) {
            (Ok(a), Ok(b)) => {
                self.equal_flag = a <= b;
                Ok(())
            },
            _ => Err(Error::RegisterOutOfRange),
        }
    }

    /// `JE`, with the counter at the first operand byte.
    fn je(&mut self) -> (r: Result<(), Error>)
        requires
            old(self).pc + 3 <= old(self).program.len(),
        ensures
            final(self)@ == step_cond_jump(old(self)@, true).0,
            r == step_cond_jump(old(self)@, true).1,
    {
        let target = self.next_register();
        let _padding = self.next_16bits();
        match target {
            Ok(t) => if self.equal_flag {
                if t < 0 {
                    Err(Error::PcOutOfRange)
                } else {
                    self.pc = t as usize;
                    Ok(())
                }
            } else {
                Ok(())
            },
            Err(e) => Err(e),
        }
    }

    /// `JNE`, with the counter at the first operand byte.
    fn jne(&mut self) -> (r: Result<(), Error>)
        requires
            old(self).pc + 3 <= old(self).program.len(),
        ensures
            final(self)@ == step_cond_jump(old(self)@, false).0,
            r == step_cond_jump(old(self)@, false).1,
    {
        let target = self.next_register();
        let _padding = self.next_16bits();
        match target {
            Ok(t) => if !self.equal_flag {
                if t < 0 {
                    Err(Error::PcOutOfRange)
                } else {
                    self.pc = t as usize;
                    Ok(())
                }
            } else {
                Ok(())
            },
            Err(e) => Err(e),
        }
    }

    /// `INC`, with the counter at the first operand byte.
    fn inc(&mut self) -> (r: Result<(), Error>)
        requires
            old(self).pc + 3 <= old(self).program.len(),
        ensures
            final(self)@ == step_incdec(old(self)@, true).0,
            r == step_incdec(old(self)@, true).1,
    {
        let register = self.next_8bits();
        let _padding = self.next_16bits();
        if register < 8 {
            let v = self.registers[register as usize];
            self.registers[register as usize] = v.wrapping_add(1);
            Ok(())
        } else {
            Err(Error::RegisterOutOfRange)
        }
    }

    /// `DEC`, with the counter at the first operand byte.
    fn dec(&mut self) -> (r: Result<(), Error>)
        requires
            old(self).pc + 3 <= old(self).program.len(),
        ensures
            final(self)@ == step_incdec(old(self)@, false).0,
            r == step_incdec(old(self)@, false).1,
    {
        let register = self.next_8bits();
        let _padding = self.next_16bits();
        if register < 8 {
            let v = self.registers[register as usize];
            self.registers[register as usize] = v.wrapping_sub(1);
            Ok(())
        } else {
            Err(Error::RegisterOutOfRange)
        }
    }

    /// Read the value of the register named by the byte at the counter and
    /// advance past that byte; a byte at or past the register count is the
    /// `RegisterOutOfRange` error.
    fn next_register(&mut self) -> (r: Result<i32, Error>)
        requires
            old(self).pc < old(self).program.len(),
        ensures
            final(self)@ == (VmModel { pc: old(self)@.pc + 1, ..old(self)@ }),
            ({
                let idx = old(self)@.program[old(self)@.pc] as int;
                if idx < 8 {
                    r == Ok::<i32, Error>(old(self)@.registers[idx])
                } else {
                    r == Err::<i32, Error>(Error::RegisterOutOfRange)
                }
            }),
    {
        let idx = self.next_8bits();
        if idx < 8 {
            Ok(self.registers[idx as usize])
        } else {
            Err(Error::RegisterOutOfRange)
        }
    }

    /// Read the byte at the counter and advance past it.
    fn next_8bits(&mut self) -> (r: u8)
        requires
            old(self).pc < old(self).program.len(),
        ensures
            final(self)@ == (VmModel { pc: old(self)@.pc + 1, ..old(self)@ }),
            r == old(self)@.program[old(self)@.pc],
    {
        let result = self.program[self.pc];
        self.pc += 1;
        result
    }

    /// Read the 16-bit big-endian value at the counter and advance past it.
    fn next_16bits(&mut self) -> (r: u16)
        requires
            old(self).pc + 2 <= old(self).program.len(),
        ensures
            final(self)@ == (VmModel { pc: old(self)@.pc + 2, ..old(self)@ }),
            r == read16(old(self)@.program, old(self)@.pc),
    {
        let hi = self.program[self.pc];
        let lo = self.program[self.pc + 1];
        self.pc += 2;
        (hi as u16) * 256 + (lo as u16)
    }
}

/// A `LOAD` step leaves exactly its 16-bit big-endian immediate, zero-
/// extended into the 32-bit slot, in the destination register: the value
/// read back afterwards equals the immediate and lies in `0 .. 65536`.
pub proof fn lemma_load_zero_extends(m: VmModel)
    requires
        m.registers.len() == 8,
        0 <= m.pc,
        m.pc + 4 <= m.program.len(),
        opcode_from_byte(m.program[m.pc]) == Opcode::LOAD,
        m.program[m.pc + 1] < 8,
    ensures
        step(m).1 == Ok::<(), Error>(()),
        step(m).0.registers[m.program[m.pc + 1] as int] == read16(m.program, m.pc + 2) as i32,
        0 <= step(m).0.registers[m.program[m.pc + 1] as int] < 65536,
        step(m).0.pc == m.pc + 4,
        forall|r: int|
            0 <= r < 8 && r != m.program[m.pc + 1] as int ==> #[trigger] step(m).0.registers[r]
                == m.registers[r],
        step(m).0.program == m.program,
        step(m).0.equal_flag == m.equal_flag,
        step(m).0.remainder == m.remainder,
{
}

/// `JUMP` sets the counter to exactly the absolute offset held in the target
/// register, whatever the counter held before the step.
pub proof fn lemma_jump_absolute(m: VmModel)
    requires
        m.registers.len() == 8,
        0 <= m.pc,
        m.pc + 4 <= m.program.len(),
        opcode_from_byte(m.program[m.pc]) == Opcode::JUMP,
        m.program[m.pc + 1] < 8,
        m.registers[m.program[m.pc + 1] as int] >= 0,
    ensures
        step(m).1 == Ok::<(), Error>(()),
        step(m).0.pc == m.registers[m.program[m.pc + 1] as int],
        step(m).0.registers == m.registers,
        step(m).0.program == m.program,
        step(m).0.equal_flag == m.equal_flag,
        step(m).0.remainder == m.remainder,
{
}

/// `JF` moves forward relative to the counter as it stands after the jump
/// instruction's own four-byte slot, not relative to the slot's start.
pub proof fn lemma_jf_relative(m: VmModel)
    requires
        m.registers.len() == 8,
        0 <= m.pc,
        m.pc + 4 <= m.program.len(),
        opcode_from_byte(m.program[m.pc]) == Opcode::JF,
        m.program[m.pc + 1] < 8,
        m.registers[m.program[m.pc + 1] as int] >= 0,
        m.pc + 4 + m.registers[m.program[m.pc + 1] as int] <= usize::MAX,
    ensures
        step(m).1 == Ok::<(), Error>(()),
        step(m).0.pc == m.pc + 4 + m.registers[m.program[m.pc + 1] as int],
        step(m).0.registers == m.registers,
        step(m).0.program == m.program,
        step(m).0.equal_flag == m.equal_flag,
        step(m).0.remainder == m.remainder,
{
}

/// `JB` moves backward relative to the counter as it stands after the jump
/// instruction's own four-byte slot.
pub proof fn lemma_jb_relative(m: VmModel)
    requires
        m.registers.len() == 8,
        0 <= m.pc,
        m.pc + 4 <= m.program.len(),
        opcode_from_byte(m.program[m.pc]) == Opcode::JB,
        m.program[m.pc + 1] < 8,
        m.registers[m.program[m.pc + 1] as int] >= 0,
        m.pc + 4 - m.registers[m.program[m.pc + 1] as int] >= 0,
    ensures
        step(m).1 == Ok::<(), Error>(()),
        step(m).0.pc == m.pc + 4 - m.registers[m.program[m.pc + 1] as int],
        step(m).0.registers == m.registers,
        step(m).0.program == m.program,
        step(m).0.equal_flag == m.equal_flag,
        step(m).0.remainder == m.remainder,
{
}

/// `EQ` writes its truth value into the shared comparison flag: the flag is
/// set after the step exactly when the two source registers hold equal
/// values.
pub proof fn lemma_eq_sets_flag(m: VmModel)
    requires
        m.registers.len() == 8,
        0 <= m.pc,
        m.pc + 4 <= m.program.len(),
        opcode_from_byte(m.program[m.pc]) == Opcode::EQ,
        m.program[m.pc + 1] < 8,
        m.program[m.pc + 2] < 8,
    ensures
        step(m).1 == Ok::<(), Error>(()),
        ({
            let a = m.registers[m.program[m.pc + 1] as int];
            let b = m.registers[m.program[m.pc + 2] as int];
            step(m).0.equal_flag == (a == b)
        }),
        step(m).0.pc == m.pc + 4,
        step(m).0.registers == m.registers,
        step(m).0.program == m.program,
        step(m).0.remainder == m.remainder,
{
}

/// `JE` moves the counter to the target offset only when the comparison
/// flag is set, and `JNE` only when it is clear; otherwise the counter
/// advances past the instruction normally.
pub proof fn lemma_conditional_jump(m: VmModel)
    requires
        m.registers.len() == 8,
        0 <= m.pc,
        m.pc + 4 <= m.program.len(),
        opcode_from_byte(m.program[m.pc]) == Opcode::JE || opcode_from_byte(m.program[m.pc])
            == Opcode::JNE,
        m.program[m.pc + 1] < 8,
        m.registers[m.program[m.pc + 1] as int] >= 0,
    ensures
        step(m).1 == Ok::<(), Error>(()),
        ({
            let taken = if opcode_from_byte(m.program[m.pc]) == Opcode::JE {
                m.equal_flag
            } else {
                !m.equal_flag
            };
            if taken {
                step(m).0.pc == m.registers[m.program[m.pc + 1] as int]
            } else {
                step(m).0.pc == m.pc + 4
            }
        }),
        step(m).0.registers == m.registers,
        step(m).0.program == m.program,
        step(m).0.equal_flag == m.equal_flag,
        step(m).0.remainder == m.remainder,
{
}

/// Whether the four-byte slot at `j` holds an instruction that always
/// executes cleanly and moves the counter to the next slot: a load,
/// arithmetic (division excluded), comparison, increment or decrement
/// instruction whose register operand bytes name real registers — no halt,
/// no jump, no filler, no unmapped byte.
pub open spec fn benign_slot(p: Seq<u8>, j: int) -> bool {
    match opcode_from_byte(p[j]) {
        Opcode::LOAD => p[j + 1] < 8,
        Opcode::ADD => p[j + 1] < 8 && p[j + 2] < 8 && p[j + 3] < 8,
        Opcode::SUB => p[j + 1] < 8 && p[j + 2] < 8 && p[j + 3] < 8,
        Opcode::MUL => p[j + 1] < 8 && p[j + 2] < 8 && p[j + 3] < 8,
        Opcode::EQ => p[j + 1] < 8 && p[j + 2] < 8,
        Opcode::NE => p[j + 1] < 8 && p[j + 2] < 8,
        Opcode::GT => p[j + 1] < 8 && p[j + 2] < 8,
        Opcode::LT => p[j + 1] < 8 && p[j + 2] < 8,
        Opcode::GTE => p[j + 1] < 8 && p[j + 2] < 8,
        Opcode::LTE => p[j + 1] < 8 && p[j + 2] < 8,
        Opcode::INC => p[j + 1] < 8,
        Opcode::DEC => p[j + 1] < 8,
        _ => false,
    }
}

/// A halt-less program of whole four-byte slots, each benign.
pub open spec fn benign_program(p: Seq<u8>) -> bool {
    &&& p.len() % 4 == 0
    &&& forall|k: int| 0 <= k < p.len() / 4 ==> #[trigger] benign_slot(p, 4 * k)
}

/// Iterating the run loop once more from the start is iterating it from the
/// first iteration's result.
pub proof fn lemma_run_steps_shift(m: VmModel, k: nat)
    ensures
        run_steps(m, (k + 1) as nat) == run_steps(run_step(m), k),
    decreases k,
{
    if k == 0 {
        assert(run_steps(m, 1nat) == run_step(run_steps(m, 0nat)));
        assert(run_steps(run_step(m), 0nat) == run_step(m));
    } else {
        lemma_run_steps_shift(m, (k - 1) as nat);
        assert(run_steps(m, (k + 1) as nat) == run_step(run_steps(m, k)));
        assert(run_steps(run_step(m), k) == run_step(run_steps(run_step(m), (k - 1) as nat)));
    }
}

/// One step of a benign program from an aligned counter inside the program
/// executes cleanly: it reports nothing, moves the counter exactly one slot
/// forward, and touches neither the program nor the run state.
pub proof fn lemma_benign_step(m: VmModel)
    requires
        m.registers.len() == 8,
        benign_program(m.program),
        0 <= m.pc < m.program.len(),
        m.pc % 4 == 0,
    ensures
        step(m).1 == Ok::<(), Error>(()),
        step(m).0.pc == m.pc + 4,
        step(m).0.program == m.program,
        step(m).0.state == m.state,
        step(m).0.registers.len() == 8,
{
    let p = m.program;
    let len = p.len() as int;
    vstd::arithmetic::div_mod::lemma_fundamental_div_mod(m.pc, 4);
    vstd::arithmetic::div_mod::lemma_fundamental_div_mod(len, 4);
    let a = m.pc / 4;
    let b = len / 4;
    assert(m.pc == 4 * a);
    assert(len == 4 * b);
    assert(a < b);
    assert(m.pc + 4 <= len);
    assert(benign_slot(p, 4 * a));
    assert(benign_slot(p, m.pc));
}

/// A benign program runs to its end: from an aligned counter, the run loop
/// walks off the end of the program in exactly one iteration per remaining
/// slot plus the final fetch, every state before that still executing. The
/// program itself is never written, so no step reads out of bounds and no
/// other outcome — a halt, a crash, an illegal opcode — can occur.
pub proof fn lemma_halt_less_run_reaches_end(m: VmModel)
    requires
        m.registers.len() == 8,
        benign_program(m.program),
        0 <= m.pc <= m.program.len(),
        m.pc % 4 == 0,
    ensures
        ({
            let n = ((m.program.len() - m.pc) / 4 + 1) as nat;
            &&& run_steps(m, n).state == State::ReachedEof
            &&& run_steps(m, n).pc == m.program.len()
            &&& run_steps(m, n).program == m.program
            &&& forall|k: nat| 1 <= k < n ==> #[trigger] run_steps(m, k).state == State::Executing
        }),
    decreases m.program.len() - m.pc,
{
    let p = m.program;
    let len = p.len() as int;
    let n = ((len - m.pc) / 4 + 1) as nat;
    if m.pc == len {
        assert((len - m.pc) / 4 == 0);
        assert(run_steps(m, 1nat) == run_step(run_steps(m, 0nat)));
    } else {
        let m0 = VmModel { state: State::Executing, ..m };
        lemma_benign_step(m0);
        let m1 = run_step(m);
        assert(m1 == (VmModel { state: State::Executing, ..step(m0).0 }));
        vstd::arithmetic::div_mod::lemma_fundamental_div_mod(m.pc, 4);
        vstd::arithmetic::div_mod::lemma_fundamental_div_mod(len, 4);
        let a = m.pc / 4;
        let b = len / 4;
        assert(m.pc == 4 * a);
        assert(len == 4 * b);
        assert(len - m.pc == 4 * (b - a));
        assert(len - m1.pc == 4 * (b - a - 1));
        vstd::arithmetic::div_mod::lemma_div_multiples_vanish(b - a, 4);
        vstd::arithmetic::div_mod::lemma_div_multiples_vanish(b - a - 1, 4);
        assert((len - m.pc) / 4 == b - a);
        assert((len - m1.pc) / 4 == b - a - 1);
        vstd::arithmetic::div_mod::lemma_mod_multiples_basic(a + 1, 4);
        assert(m1.pc % 4 == 0) by {
            assert(m1.pc == (a + 1) * 4);
        }
        lemma_halt_less_run_reaches_end(m1);
        let n1 = ((len - m1.pc) / 4 + 1) as nat;
        assert(n == n1 + 1);
        lemma_run_steps_shift(m, n1);
        assert(run_steps(m, n) == run_steps(m1, n1));
        assert forall|k: nat| 1 <= k < n implies #[trigger] run_steps(m, k).state
            == State::Executing by {
            lemma_run_steps_shift(m, (k - 1) as nat);
            assert(run_steps(m, k) == run_steps(m1, (k - 1) as nat));
            if k == 1 {
                assert(run_steps(m1, 0nat) == m1);
            }
        }
    }
}

impl core::default::Default for Vm {
    /// A fresh machine: zeroed registers, an empty program, counter zero,
    /// flag false, remainder zero, state `Executing`.
    fn default() -> (r: Vm)
        ensures
            r@.registers == zero_registers(),
            r@.pc == 0,
            r@.program == Seq::<u8>::empty(),
            r@.remainder == 0u32,
            r@.equal_flag == false,
            r@.state == State::Executing,
    {
        let v = Vm {
            registers: [0, 0, 0, 0, 0, 0, 0, 0],
            pc: 0,
            program: Vec::new(),
            remainder: 0,
            equal_flag: false,
            state: State::Executing,
        };
        proof {
            assert(v.registers@ =~= zero_registers());
            assert(v.program@ =~= Seq::<u8>::empty());
        }
        v
    }
}

} // verus!
