//! The mathematical model of the machine: its state, its errors, the
//! operand-decoding rules, and a specification-level interpreter
//! (`step_spec`, `run_spec`) that fixes the meaning of every instruction.

use vstd::prelude::*;

use crate::ops::{
    and15, eq_flag, gt_flag, lemma_bitwise_bounds, lemma_rem_bound, lemma_sum_prod_mod, not15,
    or15, prod15, rem15, sum15,
};

verus! {

/// The number of memory cells: a 15-bit address space.
pub const MEM_SIZE: usize = 0x8000;

/// The number of registers.
pub const NUM_REGISTERS: usize = 8;

/// The abstract state of the machine between instructions.
pub ghost struct MachineState {
    /// Memory: raw 16-bit cells, addressed by `0..32768`.
    pub mem: Seq<u16>,
    /// The eight registers. Arithmetic always stores values in
    /// `0..32768`, but RMEM copies a raw memory cell, so a register can
    /// transiently hold any 16-bit word.
    pub regs: Seq<u16>,
    /// The stack, bottom first; entries are raw 16-bit words.
    pub stack: Seq<u16>,
    /// The program counter: the address of the next cell to fetch.
    pub pc: int,
}

/// Every word of the sequence lies in the 15-bit value space.
pub open spec fn words_ok(ws: Seq<u16>) -> bool {
    forall|i: int| 0 <= i < ws.len() ==> ws[i] < 32768
}

impl MachineState {
    /// Well-formedness: the shape invariants that hold between
    /// instructions. The program counter always stays inside the
    /// address space; every assignment to it is checked.
    pub open spec fn wf(self) -> bool {
        &&& self.mem.len() == 32768
        &&& self.regs.len() == 8
        &&& 0 <= self.pc < 32768
    }
}

/// A fatal condition; each carries the address of the instruction
/// (`pc`) at which it arose.
#[derive(Clone, Copy, Debug, PartialEq, Eq, Structural)]
pub enum VmError {
    /// The fetched opcode is not in `0..=21`.
    InvalidOpcode { value: u16, pc: u16 },
    /// A read-operand cell holds a raw value of 32776 or above.
    InvalidOperand { raw: u16, pc: u16 },
    /// A write-operand cell does not name a register (`32768..=32775`).
    InvalidWriteTarget { raw: u16, pc: u16 },
    /// An address operand resolved to a value of 32768 or above.
    InvalidAddress { value: u16, pc: u16 },
    /// POP was executed with an empty stack.
    StackUnderflow { pc: u16 },
    /// MOD was executed with a zero divisor.
    DivideByZero { pc: u16 },
    /// IN was executed with no input byte available.
    InputFailure,
}

/// Whether the machine can go on after a successful step.
#[derive(Clone, Copy, Debug, PartialEq, Eq, Structural)]
pub enum Status {
    /// The instruction completed and execution continues.
    Running,
    /// The machine terminated normally (HALT, or RET on an empty stack).
    Halted,
}

/// Everything one instruction does: the verdict, the state after it
/// (meaningful only when the verdict is `Ok`), the bytes it emitted,
/// and whether it consumed an input byte.
pub ghost struct StepEffect {
    pub result: Result<Status, VmError>,
    pub post: MachineState,
    pub emitted: Seq<u8>,
    pub consumed: bool,
}

/// The program counter after one cell has been consumed: it advances by
/// one and wraps at the end of the 15-bit address space.
pub open spec fn advance(s: MachineState) -> MachineState {
    MachineState { pc: if s.pc == 32767 { 0 } else { s.pc + 1 }, ..s }
}

/// The raw cell at the program counter.
pub open spec fn raw_cell(s: MachineState) -> u16 {
    s.mem[s.pc]
}

/// Decoding a read-operand at the program counter: a raw cell below
/// 32768 is a literal, `32768..=32775` names a register whose contents
/// are the value, and anything above is fatal. `at` is the address of
/// the instruction, carried into the error.
pub open spec fn read_value(s: MachineState, at: u16) -> Result<u16, VmError> {
    let r = raw_cell(s);
    if r < 32768 {
        Ok(r)
    } else if r < 32776 {
        Ok(s.regs[r - 32768])
    } else {
        Err(VmError::InvalidOperand { raw: r, pc: at })
    }
}

/// Decoding a write-operand at the program counter: only a register
/// name (`32768..=32775`) is accepted; the result is the register index.
pub open spec fn reg_index(s: MachineState, at: u16) -> Result<usize, VmError> {
    let r = raw_cell(s);
    if 32768 <= r < 32776 {
        Ok((r - 32768) as usize)
    } else {
        Err(VmError::InvalidWriteTarget { raw: r, pc: at })
    }
}

/// Decoding an address operand: a read-operand whose value must lie in
/// the address space.
pub open spec fn addr_value(s: MachineState, at: u16) -> Result<u16, VmError> {
    match read_value(s, at) {
        Ok(v) => if v < 32768 {
            Ok(v)
        } else {
            Err(VmError::InvalidAddress { value: v, pc: at })
        },
        Err(e) => Err(e),
    }
}

/// The state with register `a` set to `v`.
pub open spec fn set_reg(s: MachineState, a: usize, v: u16) -> MachineState {
    MachineState { regs: s.regs.update(a as int, v), ..s }
}

/// The state with the program counter moved to `t`.
pub open spec fn with_pc(s: MachineState, t: u16) -> MachineState {
    MachineState { pc: t as int, ..s }
}

/// A step that continues in state `s` with no I/O.
pub open spec fn going(s: MachineState) -> StepEffect {
    StepEffect { result: Ok(Status::Running), post: s, emitted: Seq::empty(), consumed: false }
}

/// A step that halts normally in state `s`.
pub open spec fn halted(s: MachineState) -> StepEffect {
    StepEffect { result: Ok(Status::Halted), post: s, emitted: Seq::empty(), consumed: false }
}

/// A step that fails with `e`; the post-state is not meaningful.
pub open spec fn fault(e: VmError) -> StepEffect {
    StepEffect { result: Err(e), post: arbitrary(), emitted: Seq::empty(), consumed: false }
}

/// Decoding a write-operand followed by one read-operand.
pub open spec fn dec_rv(s: MachineState, at: u16) -> Result<(usize, u16, MachineState), VmError> {
    match reg_index(s, at) {
        Ok(a) => {
            let s2 = advance(s);
            match read_value(s2, at) {
                Ok(b) => Ok((a, b, advance(s2))),
                Err(e) => Err(e),
            }
        },
        Err(e) => Err(e),
    }
}

/// Decoding a write-operand followed by two read-operands.
pub open spec fn dec_rvv(s: MachineState, at: u16) -> Result<
    (usize, u16, u16, MachineState),
    VmError,
> {
    match dec_rv(s, at) {
        Ok((a, b, s3)) => match read_value(s3, at) {
            Ok(c) => Ok((a, b, c, advance(s3))),
            Err(e) => Err(e),
        },
        Err(e) => Err(e),
    }
}

/// Decoding a write-operand followed by an address operand.
pub open spec fn dec_ra(s: MachineState, at: u16) -> Result<(usize, u16, MachineState), VmError> {
    match reg_index(s, at) {
        Ok(a) => {
            let s2 = advance(s);
            match addr_value(s2, at) {
                Ok(t) => Ok((a, t, advance(s2))),
                Err(e) => Err(e),
            }
        },
        Err(e) => Err(e),
    }
}

/// Decoding an address operand followed by one read-operand.
pub open spec fn dec_av(s: MachineState, at: u16) -> Result<(u16, u16, MachineState), VmError> {
    match addr_value(s, at) {
        Ok(t) => {
            let s2 = advance(s);
            match read_value(s2, at) {
                Ok(b) => Ok((t, b, advance(s2))),
                Err(e) => Err(e),
            }
        },
        Err(e) => Err(e),
    }
}

/// Decoding one read-operand followed by an address operand.
pub open spec fn dec_va(s: MachineState, at: u16) -> Result<(u16, u16, MachineState), VmError> {
    match read_value(s, at) {
        Ok(b) => {
            let s2 = advance(s);
            match addr_value(s2, at) {
                Ok(t) => Ok((b, t, advance(s2))),
                Err(e) => Err(e),
            }
        },
        Err(e) => Err(e),
    }
}

/// The meaning of one instruction, executed in state `s0` with the
/// remaining input `inp`. The opcode cell and every operand cell each
/// advance the program counter by one; the effect then follows the
/// instruction table of the architecture.
pub open spec fn step_spec(s0: MachineState, inp: Seq<u8>) -> StepEffect {
    let at = s0.pc as u16;
    let op = raw_cell(s0);
    let s1 = advance(s0);
    if op == 0 {
        // HALT
        halted(s1)
    } else if op == 1 {
        // SET a b
        match dec_rv(s1, at) {
            Ok((a, b, s)) => going(set_reg(s, a, b)),
            Err(e) => fault(e),
        }
    } else if op == 2 {
        // PUSH b
        match read_value(s1, at) {
            Ok(b) => {
                let s = advance(s1);
                going(MachineState { stack: s.stack.push(b), ..s })
            },
            Err(e) => fault(e),
        }
    } else if op == 3 {
        // POP a
        if s1.stack.len() == 0 {
            fault(VmError::StackUnderflow { pc: at })
        } else {
            let v = s1.stack.last();
            let sp = MachineState { stack: s1.stack.drop_last(), ..s1 };
            match reg_index(sp, at) {
                Ok(a) => going(set_reg(advance(sp), a, v)),
                Err(e) => fault(e),
            }
        }
    } else if op == 4 {
        // EQ a b c
        match dec_rvv(s1, at) {
            Ok((a, b, c, s)) => going(set_reg(s, a, eq_flag(b, c))),
            Err(e) => fault(e),
        }
    } else if op == 5 {
        // GT a b c
        match dec_rvv(s1, at) {
            Ok((a, b, c, s)) => going(set_reg(s, a, gt_flag(b, c))),
            Err(e) => fault(e),
        }
    } else if op == 6 {
        // JMP t
        match addr_value(s1, at) {
            Ok(t) => going(with_pc(advance(s1), t)),
            Err(e) => fault(e),
        }
    } else if op == 7 {
        // JT b t
        match dec_va(s1, at) {
            Ok((b, t, s)) => going(if b != 0 { with_pc(s, t) } else { s }),
            Err(e) => fault(e),
        }
    } else if op == 8 {
        // JF b t
        match dec_va(s1, at) {
            Ok((b, t, s)) => going(if b == 0 { with_pc(s, t) } else { s }),
            Err(e) => fault(e),
        }
    } else if op == 9 {
        // ADD a b c
        match dec_rvv(s1, at) {
            Ok((a, b, c, s)) => going(set_reg(s, a, sum15(b, c))),
            Err(e) => fault(e),
        }
    } else if op == 10 {
        // MULT a b c
        match dec_rvv(s1, at) {
            Ok((a, b, c, s)) => going(set_reg(s, a, prod15(b, c))),
            Err(e) => fault(e),
        }
    } else if op == 11 {
        // MOD a b c
        match dec_rvv(s1, at) {
            Ok((a, b, c, s)) => if c == 0 {
                fault(VmError::DivideByZero { pc: at })
            } else {
                going(set_reg(s, a, rem15(b, c)))
            },
            Err(e) => fault(e),
        }
    } else if op == 12 {
        // AND a b c
        match dec_rvv(s1, at) {
            Ok((a, b, c, s)) => going(set_reg(s, a, and15(b, c))),
            Err(e) => fault(e),
        }
    } else if op == 13 {
        // OR a b c
        match dec_rvv(s1, at) {
            Ok((a, b, c, s)) => going(set_reg(s, a, or15(b, c))),
            Err(e) => fault(e),
        }
    } else if op == 14 {
        // NOT a b
        match dec_rv(s1, at) {
            Ok((a, b, s)) => going(set_reg(s, a, not15(b))),
            Err(e) => fault(e),
        }
    } else if op == 15 {
        // RMEM a t
        match dec_ra(s1, at) {
            Ok((a, t, s)) => going(set_reg(s, a, s.mem[t as int])),
            Err(e) => fault(e),
        }
    } else if op == 16 {
        // WMEM t b
        match dec_av(s1, at) {
            Ok((t, b, s)) => going(MachineState { mem: s.mem.update(t as int, b), ..s }),
            Err(e) => fault(e),
        }
    } else if op == 17 {
        // CALL t
        match addr_value(s1, at) {
            Ok(t) => {
                let s2 = advance(s1);
                going(
                    MachineState { stack: s2.stack.push(s2.pc as u16), pc: t as int, ..s2 },
                )
            },
            Err(e) => fault(e),
        }
    } else if op == 18 {
        // RET: a return to a word outside the address space would take
        // the program counter out of its invariant, so it is rejected
        // as an out-of-range address.
        if s1.stack.len() == 0 {
            halted(s1)
        } else if s1.stack.last() < 32768 {
            going(
                MachineState {
                    stack: s1.stack.drop_last(),
                    pc: s1.stack.last() as int,
                    ..s1
                },
            )
        } else {
            fault(VmError::InvalidAddress { value: s1.stack.last(), pc: at })
        }
    } else if op == 19 {
        // OUT b
        match read_value(s1, at) {
            Ok(b) => StepEffect {
                result: Ok(Status::Running),
                post: advance(s1),
                emitted: seq![(b % 256) as u8],
                consumed: false,
            },
            Err(e) => fault(e),
        }
    } else if op == 20 {
        // IN a
        match reg_index(s1, at) {
            Ok(a) => if inp.len() == 0 {
                fault(VmError::InputFailure)
            } else {
                StepEffect {
                    result: Ok(Status::Running),
                    post: set_reg(advance(s1), a, inp[0] as u16),
                    emitted: Seq::empty(),
                    consumed: true,
                }
            },
            Err(e) => fault(e),
        }
    } else if op == 21 {
        // NOOP
        going(s1)
    } else {
        fault(VmError::InvalidOpcode { value: op, pc: at })
    }
}

/// Every instruction that does not fault leaves the machine
/// well-formed: memory still has exactly 32,768 cells, there are still
/// eight registers, and the program counter is inside the address
/// space.
pub proof fn lemma_step_preserves_wf(s: MachineState, inp: Seq<u8>)
    requires
        s.wf(),
        step_spec(s, inp).result is Ok,
    ensures
        step_spec(s, inp).post.wf(),
{
}

/// A CALL whose target holds RET is, taken as a pair, neutral: after
/// the two instructions the stack is exactly what it was, memory and
/// registers are untouched, and the program counter stands right after
/// the CALL instruction.
pub proof fn lemma_call_ret_neutral(s: MachineState, inp: Seq<u8>)
    requires
        s.wf(),
        raw_cell(s) == 17,
        step_spec(s, inp).result == Ok::<Status, VmError>(Status::Running),
        step_spec(s, inp).post.mem[step_spec(s, inp).post.pc] == 18,
    ensures
        step_spec(step_spec(s, inp).post, inp).result == Ok::<Status, VmError>(Status::Running),
        ({
            let q = step_spec(step_spec(s, inp).post, inp).post;
            &&& q.stack == s.stack
            &&& q.regs == s.regs
            &&& q.mem == s.mem
            &&& q.pc == (s.pc + 2) % 32768
        }),
{
    let p = step_spec(s, inp).post;
    assert(p.stack.drop_last() =~= s.stack);
}

/// Words in the 15-bit value space are preserved: when every register
/// and stack entry is below 32768, any successful instruction other
/// than RMEM (which copies a raw memory cell into a register) leaves
/// them all below 32768. Arithmetic and comparison results, complement
/// results, input bytes and return addresses all land back in the
/// value space.
pub proof fn lemma_values_stay_bounded(s: MachineState, inp: Seq<u8>)
    requires
        s.wf(),
        words_ok(s.regs),
        words_ok(s.stack),
        raw_cell(s) != 15,
        step_spec(s, inp).result is Ok,
    ensures
        words_ok(step_spec(s, inp).post.regs),
        words_ok(step_spec(s, inp).post.stack),
{
    let at = s.pc as u16;
    let op = raw_cell(s);
    let s1 = advance(s);
    if op == 1 || op == 14 {
        if let Ok((_, b, _)) = dec_rv(s1, at) {
            assert(b < 32768);
            lemma_bitwise_bounds(b, b);
        }
    } else if op == 3 {
        if s1.stack.len() > 0 {
            assert(s1.stack.last() < 32768);
        }
    } else if op == 4 || op == 5 || op == 9 || op == 10 || op == 11 || op == 12 || op == 13 {
        if let Ok((_, b, c, _)) = dec_rvv(s1, at) {
            assert(b < 32768 && c < 32768);
            lemma_sum_prod_mod(b, c);
            lemma_bitwise_bounds(b, c);
            if c != 0 {
                lemma_rem_bound(b, c);
            }
        }
    } else if op == 18 {
        if s1.stack.len() > 0 {
            assert(words_ok(s1.stack.drop_last()));
        }
    }
}

/// Everything a bounded run does: the verdict, the final state
/// (meaningful only when the verdict is `Ok`), the whole output
/// emitted, and the input left unconsumed.
pub ghost struct RunEffect {
    pub result: Result<Status, VmError>,
    pub post: MachineState,
    pub emitted: Seq<u8>,
    pub left: Seq<u8>,
}

/// The meaning of running the machine for at most `fuel` instructions:
/// `step_spec` iterated until it halts, faults, or the budget is spent.
pub open spec fn run_spec(s: MachineState, inp: Seq<u8>, fuel: nat) -> RunEffect
    decreases fuel,
{
    if fuel == 0 {
        RunEffect { result: Ok(Status::Running), post: s, emitted: Seq::empty(), left: inp }
    } else {
        let eff = step_spec(s, inp);
        match eff.result {
            Ok(Status::Running) => {
                let inp2 = if eff.consumed {
                    inp.drop_first()
                } else {
                    inp
                };
                let rest = run_spec(eff.post, inp2, (fuel - 1) as nat);
                RunEffect {
                    result: rest.result,
                    post: rest.post,
                    emitted: eff.emitted + rest.emitted,
                    left: rest.left,
                }
            },
            Ok(Status::Halted) => RunEffect {
                result: Ok(Status::Halted),
                post: eff.post,
                emitted: eff.emitted,
                left: inp,
            },
            Err(e) => RunEffect { result: Err(e), post: arbitrary(), emitted: Seq::empty(), left: inp },
        }
    }
}

} // verus!
