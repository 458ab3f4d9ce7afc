//! The executable machine: registers, memory, call stack, and the
//! fetch-decode-execute loop, verified against the model in `machine`.

use vstd::prelude::*;

use crate::machine::{
    addr12_of, alu_result, family_of, frame_measure, lemma_decode_fields, lemma_run_for_next,
    reg_x_of, reg_y_of, run_for, step, sub_op_of, word_at, CpuError, State,
    StepResult,
};

verus! {

/// The machine state: 16 byte-wide registers, a 4096-byte memory, a program
/// counter, and a call stack of up to 16 return addresses.
pub struct CPU {
    pub registers: [u8; 16],
    pub position_in_memory: usize,
    pub memory: [u8; 4096],
    pub stack: [u16; 16],
    pub stack_pointer: usize,
}

impl View for CPU {
    type V = State;

    open spec fn view(&self) -> State {
        State {
            regs: self.registers@,
            pc: self.position_in_memory as int,
            mem: self.memory@,
            stack: self.stack@,
            sp: self.stack_pointer as int,
        }
    }
}

impl CPU {
    /// The machine invariant: see `State::wf`.
    pub open spec fn wf(&self) -> bool {
        self@.wf()
    }

    /// Reads the two bytes at the program counter as one big-endian
    /// instruction word, without advancing the counter.
    pub fn read_curr_opcode(&self) -> (r: Result<u16, CpuError>)
        ensures
            self@.pc + 1 < 4096 ==> (r matches Ok(w) && w == word_at(self@.mem, self@.pc)),
            self@.pc + 1 >= 4096 ==> (r matches Err(e) && e == CpuError::OutOfBounds),
    {
        let p = self.position_in_memory;
        if p >= 4095 {
            return Err(CpuError::OutOfBounds);
        }
        let hi = self.memory[p];
        let lo = self.memory[p + 1];
        Ok((hi as u16) * 256 + (lo as u16))
    }

    /// MOVE: `reg[x] = reg[y]`.
    pub fn mov_xy(&mut self, x: u8, y: u8)
        requires
            x < 16,
            y < 16,
        ensures
            final(self)@ == (State {
                regs: alu_result(old(self)@.regs, x as int, y as int, 0),
                ..old(self)@
            }),
    {
        self.registers[x as usize] = self.registers[y as usize];
    }

    /// OR: `reg[x] |= reg[y]`.
    pub fn or_xy(&mut self, x: u8, y: u8)
        requires
            x < 16,
            y < 16,
        ensures
            final(self)@ == (State {
                regs: alu_result(old(self)@.regs, x as int, y as int, 1),
                ..old(self)@
            }),
    {
        self.registers[x as usize] = self.registers[x as usize] | self.registers[y as usize];
    }

    /// AND: `reg[x] &= reg[y]`.
    pub fn and_xy(&mut self, x: u8, y: u8)
        requires
            x < 16,
            y < 16,
        ensures
            final(self)@ == (State {
                regs: alu_result(old(self)@.regs, x as int, y as int, 2),
                ..old(self)@
            }),
    {
        self.registers[x as usize] = self.registers[x as usize] & self.registers[y as usize];
    }

    /// XOR: `reg[x] ^= reg[y]`.
    pub fn xor_xy(&mut self, x: u8, y: u8)
        requires
            x < 16,
            y < 16,
        ensures
            final(self)@ == (State {
                regs: alu_result(old(self)@.regs, x as int, y as int, 3),
                ..old(self)@
            }),
    {
        self.registers[x as usize] = self.registers[x as usize] ^ self.registers[y as usize];
    }

    /// ADD: `reg[x] = (reg[x] + reg[y]) mod 256`, with the carry written to
    /// register 15: 1 exactly when the unsigned sum overflows 8 bits.
    pub fn add_xy(&mut self, x: u8, y: u8)
        requires
            x < 16,
            y < 16,
        ensures
            final(self)@ == (State {
                regs: alu_result(old(self)@.regs, x as int, y as int, 4),
                ..old(self)@
            }),
            x != 15 ==> final(self)@.regs[x as int] == (old(self)@.regs[x as int]
                + old(self)@.regs[y as int]) % 256,
            final(self)@.regs[15] == (if old(self)@.regs[x as int] + old(self)@.regs[y as int]
                > 255 {
                1u8
            } else {
                0u8
            }),
    {
        let a = self.registers[x as usize];
        let b = self.registers[y as usize];
        let sum: u16 = (a as u16) + (b as u16);
        let value = (sum % 256) as u8;
        let carry: u8 = if sum > 255 {
            1
        } else {
            0
        };
        self.registers[x as usize] = value;
        self.registers[15] = carry;
    }

    /// SUB: `reg[x] = (reg[x] - reg[y]) mod 256`, with the inverted borrow
    /// written to register 15: 1 exactly when no borrow occurred
    /// (`reg[x] >= reg[y]` before the operation), 0 when it did.
    pub fn sub_xy(&mut self, x: u8, y: u8)
        requires
            x < 16,
            y < 16,
        ensures
            final(self)@ == (State {
                regs: alu_result(old(self)@.regs, x as int, y as int, 5),
                ..old(self)@
            }),
            x != 15 ==> final(self)@.regs[x as int] == (old(self)@.regs[x as int]
                - old(self)@.regs[y as int]) % 256,
            final(self)@.regs[15] == (if old(self)@.regs[x as int] >= old(self)@.regs[y as int] {
                1u8
            } else {
                0u8
            }),
    {
        let a = self.registers[x as usize];
        let b = self.registers[y as usize];
        let diff: u16 = ((a as u16) + 256) - (b as u16);
        let value = (diff % 256) as u8;
        let no_borrow: u8 = if a >= b {
            1
        } else {
            0
        };
        proof {
            assert(diff % 256 == (a - b) % 256) by (nonlinear_arith)
                requires
                    diff == a + 256 - b,
                    0 <= a < 256,
                    0 <= b < 256,
            ;
        }
        self.registers[x as usize] = value;
        self.registers[15] = no_borrow;
    }

    /// CALL: pushes the current program counter (already advanced past the
    /// CALL word) as the return address, then jumps to `addr`.  Fails with
    /// `StackOverflow`, before pushing anything, when the stack is full.
    pub fn call(&mut self, addr: u16) -> (r: Result<(), CpuError>)
        requires
            old(self).wf(),
            addr < 4096,
        ensures
            final(self).wf(),
            old(self)@.sp < 16 ==> (r matches Ok(()) && final(self)@ == (State {
                stack: old(self)@.stack.update(old(self)@.sp, (old(self)@.pc as u16)),
                sp: old(self)@.sp + 1,
                pc: addr as int,
                ..old(self)@
            })),
            old(self)@.sp >= 16 ==> (r matches Err(e) && e == CpuError::StackOverflow
                && final(self)@ == old(self)@),
    {
        let sp = self.stack_pointer;
        if sp >= 16 {
            return Err(CpuError::StackOverflow);
        }
        self.stack[sp] = self.position_in_memory as u16;
        self.stack_pointer = sp + 1;
        self.position_in_memory = addr as usize;
        Ok(())
    }

    /// RETURN: pops the top return address into the program counter.  Fails
    /// with `StackUnderflow` when the stack is empty.
    pub fn ret(&mut self) -> (r: Result<(), CpuError>)
        requires
            old(self).wf(),
        ensures
            final(self).wf(),
            old(self)@.sp == 0 ==> (r matches Err(e) && e == CpuError::StackUnderflow
                && final(self)@ == old(self)@),
            old(self)@.sp > 0 ==> (r matches Ok(()) && final(self)@ == (State {
                pc: old(self)@.stack[old(self)@.sp - 1] as int,
                sp: old(self)@.sp - 1,
                ..old(self)@
            })),
    {
        if self.stack_pointer == 0 {
            return Err(CpuError::StackUnderflow);
        }
        self.stack_pointer = self.stack_pointer - 1;
        self.position_in_memory = self.stack[self.stack_pointer] as usize;
        Ok(())
    }

    /// The family-0 group, selected by the entire word: `0x0000` halts
    /// (returns `Ok(true)`), `0x00EE` returns from a subroutine
    /// (`Ok(false)`); any other word is unsupported.  `addr` is the address
    /// the word was fetched from, kept for the diagnostic.
    pub fn exec_0(&mut self, op_code: u16, addr: usize) -> (r: Result<bool, CpuError>)
        requires
            old(self).wf(),
        ensures
            final(self).wf(),
            op_code == 0x0000 ==> (r matches Ok(halt) && halt && final(self)@ == old(self)@),
            op_code == 0x00EE && old(self)@.sp == 0 ==> (r matches Err(e)
                && e == CpuError::StackUnderflow && final(self)@ == old(self)@),
            op_code == 0x00EE && old(self)@.sp > 0 ==> (r matches Ok(halt) && !halt
                && final(self)@ == (State {
                pc: old(self)@.stack[old(self)@.sp - 1] as int,
                sp: old(self)@.sp - 1,
                ..old(self)@
            })),
            op_code != 0x0000 && op_code != 0x00EE ==> (r matches Err(e)
                && e == (CpuError::UnsupportedInstruction { word: op_code, addr })
                && final(self)@ == old(self)@),
    {
        match op_code {
            0x0000 => Ok(true),
            0x00EE => {
                self.ret()?;
                Ok(false)
            },
            _ => Err(CpuError::UnsupportedInstruction { word: op_code, addr }),
        }
    }

    /// The family-8 binary register group, dispatched on the low nibble `d`;
    /// sub-operations above 5 are unsupported.  `op_code` and `addr` only
    /// feed the diagnostic.
    pub fn exec_8xy(&mut self, x: u8, y: u8, d: u8, op_code: u16, addr: usize) -> (r: Result<
        (),
        CpuError,
    >)
        requires
            x < 16,
            y < 16,
        ensures
            d <= 5 ==> (r matches Ok(()) && final(self)@ == (State {
                regs: alu_result(old(self)@.regs, x as int, y as int, d as int),
                ..old(self)@
            })),
            d > 5 ==> (r matches Err(e)
                && e == (CpuError::UnsupportedInstruction { word: op_code, addr })
                && final(self)@ == old(self)@),
    {
        match d {
            0x0 => {
                self.mov_xy(x, y);
                Ok(())
            },
            0x1 => {
                self.or_xy(x, y);
                Ok(())
            },
            0x2 => {
                self.and_xy(x, y);
                Ok(())
            },
            0x3 => {
                self.xor_xy(x, y);
                Ok(())
            },
            0x4 => {
                self.add_xy(x, y);
                Ok(())
            },
            0x5 => {
                self.sub_xy(x, y);
                Ok(())
            },
            _ => Err(CpuError::UnsupportedInstruction { word: op_code, addr }),
        }
    }

    /// The fetch-decode-execute loop: repeatedly fetches the word at the
    /// program counter, advances the counter by 2, and dispatches on the top
    /// nibble, until the HALT word ends the run (`Ok`) or a fatal condition
    /// aborts it (`Err`).  The result and the final machine state are
    /// exactly what iterating the model's `step` from the starting state
    /// gives; the `decreases` measure shows the loop cannot run forever.
    #[verifier::loop_isolation(false)]
    pub fn run(&mut self) -> (r: Result<(), CpuError>)
        requires
            old(self).wf(),
        ensures
            final(self).wf(),
            r is Ok ==> (exists|n: nat|
                #[trigger] run_for(old(self)@, n) == StepResult::Halted(final(self)@)),
            r matches Err(e) ==> (exists|n: nat|
                #[trigger] run_for(old(self)@, n) == StepResult::Failed(e, final(self)@)),
    {
        let ghost mut steps: nat = 0;
        loop
            invariant
                self.wf(),
                run_for(old(self)@, steps) == StepResult::Next(self@),
            decreases
                frame_measure(self@, 0),
                frame_measure(self@, 1),
                frame_measure(self@, 2),
                frame_measure(self@, 3),
                frame_measure(self@, 4),
                frame_measure(self@, 5),
                frame_measure(self@, 6),
                frame_measure(self@, 7),
                frame_measure(self@, 8),
                frame_measure(self@, 9),
                frame_measure(self@, 10),
                frame_measure(self@, 11),
                frame_measure(self@, 12),
                frame_measure(self@, 13),
                frame_measure(self@, 14),
                frame_measure(self@, 15),
                frame_measure(self@, 16),
        {
            let ghost pre: State = self@;
            let op_code = match self.read_curr_opcode() {
                Ok(w) => w,
                Err(e) => {
                    proof {
                        assert(step(pre) == StepResult::Failed(CpuError::OutOfBounds, pre));
                        lemma_run_for_next(old(self)@, pre, steps);
                    }
                    return Err(e);
                },
            };
            let fetch_addr = self.position_in_memory;
            self.position_in_memory = fetch_addr + 2;
            proof {
                assert(self@ == (State { pc: pre.pc + 2, ..pre }));
            }
            let c = op_code / 0x1000;
            let x = ((op_code / 0x100) % 16) as u8;
            let y = ((op_code / 16) % 16) as u8;
            let d = (op_code % 16) as u8;
            let nnn = op_code % 0x1000;
            match c {
                0x0 => {
                    match self.exec_0(op_code, fetch_addr) {
                        Ok(true) => {
                            proof {
                                assert(step(pre) == StepResult::Halted(self@));
                                lemma_run_for_next(old(self)@, pre, steps);
                            }
                            return Ok(());
                        },
                        Ok(false) => {
                            proof {
                                assert(step(pre) == StepResult::Next(self@));
                                lemma_run_for_next(old(self)@, pre, steps);
                                steps = steps + 1;
                            }
                        },
                        Err(e) => {
                            proof {
                                assert(step(pre) == StepResult::Failed(e, self@));
                                lemma_run_for_next(old(self)@, pre, steps);
                            }
                            return Err(e);
                        },
                    }
                },
                0x2 => {
                    match self.call(nnn) {
                        Ok(()) => {
                            proof {
                                assert(step(pre) == StepResult::Next(self@));
                                lemma_run_for_next(old(self)@, pre, steps);
                                steps = steps + 1;
                            }
                        },
                        Err(e) => {
                            proof {
                                assert(step(pre) == StepResult::Failed(e, self@));
                                lemma_run_for_next(old(self)@, pre, steps);
                            }
                            return Err(e);
                        },
                    }
                },
                0x8 => {
                    match self.exec_8xy(x, y, d, op_code, fetch_addr) {
                        Ok(()) => {
                            proof {
                                assert(step(pre) == StepResult::Next(self@));
                                lemma_run_for_next(old(self)@, pre, steps);
                                steps = steps + 1;
                            }
                        },
                        Err(e) => {
                            proof {
                                assert(step(pre) == StepResult::Failed(e, self@));
                                lemma_run_for_next(old(self)@, pre, steps);
                            }
                            return Err(e);
                        },
                    }
                },
                _ => {
                    let e = CpuError::UnsupportedInstruction { word: op_code, addr: fetch_addr };
                    proof {
                        assert(step(pre) == StepResult::Failed(e, self@));
                        lemma_run_for_next(old(self)@, pre, steps);
                    }
                    return Err(e);
                },
            }
            proof {
                assert(forall|i: int|
                    0 <= i < pre.sp ==> frame_measure(self@, i) == frame_measure(pre, i));
                assert(frame_measure(self@, pre.sp) < frame_measure(pre, pre.sp));
                assert(0 <= frame_measure(self@, pre.sp));
            }
        }
    }

    /// Builds the family-8 instruction word for operation `d` over registers
    /// `x` and `y`.
    pub fn opcode_8xy(x: u8, y: u8, d: u8) -> (w: u16)
        requires
            x < 16,
            y < 16,
            d < 16,
        ensures
            family_of(w as int) == 0x8,
            reg_x_of(w as int) == x,
            reg_y_of(w as int) == y,
            sub_op_of(w as int) == d,
    {
        let w: u16 = 0x8000 + (x as u16) * 0x100 + (y as u16) * 0x10 + (d as u16);
        proof {
            lemma_decode_fields(0x8, x as int, y as int, d as int);
        }
        w
    }
}

} // verus!

