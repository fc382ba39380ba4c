//! The executable machine: its state as plain data, the operand
//! decoders, and the instruction dispatcher, each proved to follow the
//! specification-level interpreter in `state`.

use vstd::prelude::*;

use crate::codec::{decode_program, words_of_bytes};
use crate::state::{
    advance, read_value, reg_index, addr_value, step_spec, run_spec, MachineState, Status,
    VmError, MEM_SIZE, NUM_REGISTERS,
};

verus! {

broadcast use vstd::seq_lib::group_seq_lib_default;

/// A buffered byte source for the IN instruction. Its view is the
/// sequence of bytes not yet consumed.
pub struct Input {
    pub bytes: Vec<u8>,
    pub pos: usize,
}

impl View for Input {
    type V = Seq<u8>;

    open spec fn view(&self) -> Seq<u8> {
        self.bytes@.skip(self.pos as int)
    }
}

impl Input {
    /// The cursor never passes the end of the buffer.
    pub open spec fn wf(&self) -> bool {
        self.pos <= self.bytes@.len()
    }

    /// A source that will yield exactly the given bytes, in order.
    pub fn new(bytes: Vec<u8>) -> (r: Input)
        ensures
            r.wf(),
            r@ == bytes@,
    {
        let r = Input { bytes, pos: 0 };
        proof {
            assert(r@ =~= r.bytes@);
        }
        r
    }

    /// Yields the next byte, or `None` when the source is exhausted.
    pub fn next(&mut self) -> (r: Option<u8>)
        requires
            old(self).wf(),
        ensures
            final(self).wf(),
            match r {
                Some(b) => old(self)@.len() > 0 && b == old(self)@[0] && final(self)@ == old(
                    self,
                )@.drop_first(),
                None => old(self)@.len() == 0 && final(self)@ == old(self)@,
            },
    {
        if self.pos < self.bytes.len() {
            let b = self.bytes[self.pos];
            self.pos = self.pos + 1;
            proof {
                assert(self@ =~= old(self)@.drop_first());
            }
            Some(b)
        } else {
            None
        }
    }
}

/// The machine: memory, registers, stack, and program counter.
pub struct VM {
    pub memory: Vec<u16>,
    pub registers: Vec<u16>,
    pub stack: Vec<u16>,
    pub pc: usize,
}

impl View for VM {
    type V = MachineState;

    open spec fn view(&self) -> MachineState {
        MachineState {
            mem: self.memory@,
            regs: self.registers@,
            stack: self.stack@,
            pc: self.pc as int,
        }
    }
}

/// A vector of `n` zero words.
fn zero_words(n: usize) -> (r: Vec<u16>)
    ensures
        r@.len() == n,
        forall|i: int| 0 <= i < n ==> r@[i] == 0,
{
    let mut r: Vec<u16> = Vec::new();
    let mut i: usize = 0;
    while i < n
        invariant
            i <= n,
            r@.len() == i,
            forall|j: int| 0 <= j < i ==> r@[j] == 0,
        decreases n - i,
    {
        r.push(0);
        i = i + 1;
    }
    r
}

impl VM {
    /// Well-formedness of the machine between instructions.
    pub open spec fn wf(&self) -> bool {
        self@.wf()
    }

    /// A fresh machine: memory and registers all zero, empty stack,
    /// program counter at address 0.
    pub fn new() -> (r: VM)
        ensures
            r.wf(),
            r@.mem.len() == 32768,
            forall|i: int| 0 <= i < 32768 ==> r@.mem[i] == 0,
            forall|i: int| 0 <= i < 8 ==> r@.regs[i] == 0,
            r@.stack == Seq::<u16>::empty(),
            r@.pc == 0,
    {
        let r = VM {
            memory: zero_words(MEM_SIZE),
            registers: zero_words(NUM_REGISTERS),
            stack: Vec::new(),
            pc: 0,
        };
        proof {
            assert(r@.stack =~= Seq::<u16>::empty());
        }
        r
    }

    /// Overwrites memory from address 0 with the given words; the rest
    /// of memory, the registers, the stack and the program counter are
    /// untouched.
    pub fn init(&mut self, program: &Vec<u16>)
        requires
            old(self).wf(),
            program@.len() <= 32768,
        ensures
            final(self).wf(),
            forall|j: int| 0 <= j < program@.len() ==> final(self)@.mem[j] == program@[j],
            forall|j: int|
                program@.len() <= j < 32768 ==> final(self)@.mem[j] == old(self)@.mem[j],
            final(self)@.mem.len() == 32768,
            final(self)@.regs == old(self)@.regs,
            final(self)@.stack == old(self)@.stack,
            final(self)@.pc == old(self)@.pc,
    {
        let mut i: usize = 0;
        while i < program.len()
            invariant
                old(self).wf(),
                i <= program@.len(),
                program@.len() <= 32768,
                self.memory@.len() == 32768,
                forall|j: int| 0 <= j < i ==> self.memory@[j] == program@[j],
                forall|j: int| i <= j < 32768 ==> self.memory@[j] == old(self)@.mem[j],
                self.registers == old(self).registers,
                self.stack == old(self).stack,
                self.pc == old(self).pc,
            decreases program@.len() - i,
        {
            self.memory[i] = program[i];
            i = i + 1;
        }
    }

    /// Loads a program image: every little-endian byte pair of the
    /// stream becomes one word, written to memory from address 0; an
    /// odd trailing byte is ignored, and memory past the image keeps
    /// its prior contents.
    pub fn load(&mut self, bytes: &Vec<u8>)
        requires
            old(self).wf(),
            bytes@.len() <= 65536,
        ensures
            final(self).wf(),
            forall|j: int|
                0 <= j < words_of_bytes(bytes@).len() ==> final(self)@.mem[j] == words_of_bytes(
                    bytes@,
                )[j],
            forall|j: int|
                words_of_bytes(bytes@).len() <= j < 32768 ==> final(self)@.mem[j] == old(
                    self,
                )@.mem[j],
            final(self)@.mem.len() == 32768,
            final(self)@.regs == old(self)@.regs,
            final(self)@.stack == old(self)@.stack,
            final(self)@.pc == old(self)@.pc,
    {
        let words = decode_program(bytes);
        self.init(&words);
    }

    /// Decodes a read-operand at the program counter and advances it.
    /// `at` is the address of the current instruction, used in errors.
    pub fn get(&mut self, at: u16) -> (r: Result<u16, VmError>)
        requires
            old(self).wf(),
        ensures
            final(self).wf(),
            final(self)@ == advance(old(self)@),
            r == read_value(old(self)@, at),
    {
        let raw = self.memory[self.pc];
        self.pc = if self.pc == 32767 {
            0
        } else {
            self.pc + 1
        };
        if raw < 32768 {
            Ok(raw)
        } else if raw < 32776 {
            Ok(self.registers[(raw - 32768) as usize])
        } else {
            Err(VmError::InvalidOperand { raw, pc: at })
        }
    }

    /// Decodes a write-operand (a register index) at the program
    /// counter and advances it.
    pub fn get_register(&mut self, at: u16) -> (r: Result<usize, VmError>)
        requires
            old(self).wf(),
        ensures
            final(self).wf(),
            final(self)@ == advance(old(self)@),
            r == reg_index(old(self)@, at),
            r matches Ok(a) ==> a < 8,
    {
        let raw = self.memory[self.pc];
        self.pc = if self.pc == 32767 {
            0
        } else {
            self.pc + 1
        };
        if 32768 <= raw && raw < 32776 {
            Ok((raw - 32768) as usize)
        } else {
            Err(VmError::InvalidWriteTarget { raw, pc: at })
        }
    }

    /// Fetches, decodes and executes exactly one instruction: the
    /// result, the state after it, the byte written and the byte read
    /// are precisely those of the specification-level interpreter
    /// `step_spec`.
    pub fn step(&mut self, input: &mut Input, output: &mut Vec<u8>) -> (r: Result<
        Status,
        VmError,
    >)
        requires
            old(self).wf(),
            old(input).wf(),
        ensures
            final(self).wf(),
            final(input).wf(),
            ({
                let eff = step_spec(old(self)@, old(input)@);
                &&& r == eff.result
                &&& (r matches Ok(_) ==> final(self)@ == eff.post)
                &&& final(output)@ == old(output)@ + eff.emitted
                &&& final(input)@ == (if eff.consumed {
                    old(input)@.drop_first()
                } else {
                    old(input)@
                })
            }),
    {
        let at = self.pc as u16;
        let op = self.memory[self.pc];
        self.pc = if self.pc == 32767 {
            0
        } else {
            self.pc + 1
        };
        match op {
            0 => Ok(Status::Halted),
            1 => match self.get_register(at) {
                Ok(a) => match self.get(at) {
                    Ok(b) => {
                        self.registers[a] = b;
                        Ok(Status::Running)
                    },
                    Err(e) => Err(e),
                },
                Err(e) => Err(e),
            },
            2 => match self.get(at) {
                Ok(b) => {
                    self.stack.push(b);
                    Ok(Status::Running)
                },
                Err(e) => Err(e),
            },
            3 => match self.stack.pop() {
                Some(v) => match self.get_register(at) {
                    Ok(a) => {
                        self.registers[a] = v;
                        Ok(Status::Running)
                    },
                    Err(e) => Err(e),
                },
                None => Err(VmError::StackUnderflow { pc: at }),
            },
            4 => match self.get_register(at) {
                Ok(a) => match self.get(at) {
                    Ok(b) => match self.get(at) {
                        Ok(c) => {
                            self.registers[a] = if b == c {
                                1
                            } else {
                                0
                            };
                            Ok(Status::Running)
                        },
                        Err(e) => Err(e),
                    },
                    Err(e) => Err(e),
                },
                Err(e) => Err(e),
            },
            5 => match self.get_register(at) {
                Ok(a) => match self.get(at) {
                    Ok(b) => match self.get(at) {
                        Ok(c) => {
                            self.registers[a] = if b > c {
                                1
                            } else {
                                0
                            };
                            Ok(Status::Running)
                        },
                        Err(e) => Err(e),
                    },
                    Err(e) => Err(e),
                },
                Err(e) => Err(e),
            },
            6 => match self.get_address(at) {
                Ok(t) => {
                    self.pc = t as usize;
                    Ok(Status::Running)
                },
                Err(e) => Err(e),
            },
            7 => match self.get(at) {
                Ok(b) => match self.get_address(at) {
                    Ok(t) => {
                        if b != 0 {
                            self.pc = t as usize;
                        }
                        Ok(Status::Running)
                    },
                    Err(e) => Err(e),
                },
                Err(e) => Err(e),
            },
            8 => match self.get(at) {
                Ok(b) => match self.get_address(at) {
                    Ok(t) => {
                        if b == 0 {
                            self.pc = t as usize;
                        }
                        Ok(Status::Running)
                    },
                    Err(e) => Err(e),
                },
                Err(e) => Err(e),
            },
            9 => match self.get_register(at) {
                Ok(a) => match self.get(at) {
                    Ok(b) => match self.get(at) {
                        Ok(c) => {
                            self.registers[a] = ((b as u32 + c as u32) % 32768) as u16;
                            Ok(Status::Running)
                        },
                        Err(e) => Err(e),
                    },
                    Err(e) => Err(e),
                },
                Err(e) => Err(e),
            },
            10 => match self.get_register(at) {
                Ok(a) => match self.get(at) {
                    Ok(b) => match self.get(at) {
                        Ok(c) => {
                            proof {
                                assert(b as u32 * c as u32 <= 0xfffe0001) by (nonlinear_arith)
                                    requires
                                        b <= 0xffffu16,
                                        c <= 0xffffu16,
                                ;
                            }
                            self.registers[a] = ((b as u32 * c as u32) % 32768) as u16;
                            Ok(Status::Running)
                        },
                        Err(e) => Err(e),
                    },
                    Err(e) => Err(e),
                },
                Err(e) => Err(e),
            },
            11 => match self.get_register(at) {
                Ok(a) => match self.get(at) {
                    Ok(b) => match self.get(at) {
                        Ok(c) => {
                            if c == 0 {
                                Err(VmError::DivideByZero { pc: at })
                            } else {
                                self.registers[a] = b % c;
                                Ok(Status::Running)
                            }
                        },
                        Err(e) => Err(e),
                    },
                    Err(e) => Err(e),
                },
                Err(e) => Err(e),
            },
            12 => match self.get_register(at) {
                Ok(a) => match self.get(at) {
                    Ok(b) => match self.get(at) {
                        Ok(c) => {
                            self.registers[a] = b & c;
                            Ok(Status::Running)
                        },
                        Err(e) => Err(e),
                    },
                    Err(e) => Err(e),
                },
                Err(e) => Err(e),
            },
            13 => match self.get_register(at) {
                Ok(a) => match self.get(at) {
                    Ok(b) => match self.get(at) {
                        Ok(c) => {
                            self.registers[a] = b | c;
                            Ok(Status::Running)
                        },
                        Err(e) => Err(e),
                    },
                    Err(e) => Err(e),
                },
                Err(e) => Err(e),
            },
            14 => match self.get_register(at) {
                Ok(a) => match self.get(at) {
                    Ok(b) => {
                        self.registers[a] = !b & 0x7fff;
                        Ok(Status::Running)
                    },
                    Err(e) => Err(e),
                },
                Err(e) => Err(e),
            },
            15 => match self.get_register(at) {
                Ok(a) => match self.get_address(at) {
                    Ok(t) => {
                        self.registers[a] = self.memory[t as usize];
                        Ok(Status::Running)
                    },
                    Err(e) => Err(e),
                },
                Err(e) => Err(e),
            },
            16 => match self.get_address(at) {
                Ok(t) => match self.get(at) {
                    Ok(b) => {
                        self.memory[t as usize] = b;
                        Ok(Status::Running)
                    },
                    Err(e) => Err(e),
                },
                Err(e) => Err(e),
            },
            17 => match self.get_address(at) {
                Ok(t) => {
                    let ret = self.pc as u16;
                    self.stack.push(ret);
                    self.pc = t as usize;
                    Ok(Status::Running)
                },
                Err(e) => Err(e),
            },
            18 => match self.stack.pop() {
                Some(v) => {
                    if v < 32768 {
                        self.pc = v as usize;
                        Ok(Status::Running)
                    } else {
                        Err(VmError::InvalidAddress { value: v, pc: at })
                    }
                },
                None => Ok(Status::Halted),
            },
            19 => match self.get(at) {
                Ok(b) => {
                    let byte = (b % 256) as u8;
                    output.push(byte);
                    proof {
                        assert(old(output)@.push(byte) =~= old(output)@ + seq![byte]);
                    }
                    Ok(Status::Running)
                },
                Err(e) => Err(e),
            },
            20 => match self.get_register(at) {
                Ok(a) => match input.next() {
                    Some(b) => {
                        self.registers[a] = b as u16;
                        Ok(Status::Running)
                    },
                    None => Err(VmError::InputFailure),
                },
                Err(e) => Err(e),
            },
            21 => Ok(Status::Running),
            _ => Err(VmError::InvalidOpcode { value: op, pc: at }),
        }
    }

    /// Runs the machine for at most `max_steps` instructions: the
    /// verdict, the final state, the output written and the input
    /// consumed are precisely those of the specification-level
    /// interpreter `run_spec`. `Ok(Status::Running)` means the budget
    /// was spent before the machine halted.
    pub fn run(&mut self, input: &mut Input, output: &mut Vec<u8>, max_steps: u64) -> (r: Result<
        Status,
        VmError,
    >)
        requires
            old(self).wf(),
            old(input).wf(),
        ensures
            final(self).wf(),
            final(input).wf(),
            ({
                let eff = run_spec(old(self)@, old(input)@, max_steps as nat);
                &&& r == eff.result
                &&& (r matches Ok(_) ==> final(self)@ == eff.post)
                &&& final(output)@ == old(output)@ + eff.emitted
                &&& final(input)@ == eff.left
            }),
    {
        let ghost full = run_spec(old(self)@, old(input)@, max_steps as nat);
        let ghost mut emitted_sofar: Seq<u8> = Seq::empty();
        let mut steps: u64 = 0;
        while steps < max_steps
            invariant
                self.wf(),
                input.wf(),
                steps <= max_steps,
                full == run_spec(old(self)@, old(input)@, max_steps as nat),
                output@ == old(output)@ + emitted_sofar,
                ({
                    let rest = run_spec(self@, input@, (max_steps - steps) as nat);
                    &&& full.result == rest.result
                    &&& full.post == rest.post
                    &&& full.emitted == emitted_sofar + rest.emitted
                    &&& full.left == rest.left
                }),
            decreases max_steps - steps,
        {
            let ghost rest_pre = run_spec(self@, input@, (max_steps - steps) as nat);
            let ghost eff = step_spec(self@, input@);
            let ghost sofar0 = emitted_sofar;
            let r = self.step(input, output);
            proof {
                emitted_sofar = sofar0 + eff.emitted;
                assert((old(output)@ + sofar0) + eff.emitted =~= old(output)@ + emitted_sofar);
            }
            steps = steps + 1;
            match r {
                Ok(Status::Running) => {
                    proof {
                        let rest_post = run_spec(self@, input@, (max_steps - steps) as nat);
                        assert(sofar0 + (eff.emitted + rest_post.emitted) =~= emitted_sofar
                            + rest_post.emitted);
                    }
                },
                Ok(Status::Halted) => {
                    return Ok(Status::Halted);
                },
                Err(e) => {
                    return Err(e);
                },
            }
        }
        Ok(Status::Running)
    }

    /// Decodes an address operand at the program counter and advances
    /// it.
    pub fn get_address(&mut self, at: u16) -> (r: Result<u16, VmError>)
        requires
            old(self).wf(),
        ensures
            final(self).wf(),
            final(self)@ == advance(old(self)@),
            r == addr_value(old(self)@, at),
            r matches Ok(v) ==> v < 32768,
    {
        match self.get(at) {
            Ok(v) => if v < 32768 {
                Ok(v)
            } else {
                Err(VmError::InvalidAddress { value: v, pc: at })
            },
            Err(e) => Err(e),
        }
    }
}

} // verus!
