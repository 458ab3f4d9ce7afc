//! Abstract model of the register machine: a ghost state, a deterministic
//! one-instruction transition function, and the laws the instruction set obeys.

use vstd::prelude::*;

verus! {

/// A fatal condition that aborts the run loop.
#[derive(Clone, Copy, PartialEq, Eq, Structural, Debug)]
pub enum CpuError {
    /// The decoded word has no handler; carries the word and the address it
    /// was fetched from.
    UnsupportedInstruction { word: u16, addr: usize },
    /// A CALL was attempted while the call stack was at capacity.
    StackOverflow,
    /// A RETURN was attempted while the call stack was empty.
    StackUnderflow,
    /// A fetch would read outside the addressable memory.
    OutOfBounds,
}

/// Mathematical view of the whole machine state.
#[verifier::ext_equal]
pub struct State {
    pub regs: Seq<u8>,
    pub pc: int,
    pub mem: Seq<u8>,
    pub stack: Seq<u16>,
    pub sp: int,
}

impl State {
    /// Well-formedness: the fixed sizes, the stack-pointer bound, and every
    /// live return address pointing into memory.
    pub open spec fn wf(self) -> bool {
        &&& self.regs.len() == 16
        &&& self.mem.len() == 4096
        &&& self.stack.len() == 16
        &&& 0 <= self.sp <= 16
        &&& 0 <= self.pc <= 4096
        &&& forall|i: int| 0 <= i < self.sp ==> #[trigger] self.stack[i] <= 4096
    }
}

/// The 16-bit instruction word stored big-endian at address `a`.
pub open spec fn word_at(mem: Seq<u8>, a: int) -> int
    recommends
        0 <= a,
        a + 1 < mem.len(),
{
    mem[a] * 256 + mem[a + 1]
}

/// Bits 15-12 of an instruction word: the instruction family.
pub open spec fn family_of(w: int) -> int {
    w / 0x1000
}

/// Bits 11-8: the first register index.
pub open spec fn reg_x_of(w: int) -> int {
    (w / 0x100) % 16
}

/// Bits 7-4: the second register index.
pub open spec fn reg_y_of(w: int) -> int {
    (w / 16) % 16
}

/// Bits 3-0: the sub-operation selector within a family.
pub open spec fn sub_op_of(w: int) -> int {
    w % 16
}

/// Bits 11-0: the 12-bit immediate address.
pub open spec fn addr12_of(w: int) -> int {
    w % 0x1000
}

/// The register file after the family-8 binary operation `d` over registers
/// `x` and `y`.  ADD and SUB also write the carry/borrow flag to register 15.
pub open spec fn alu_result(regs: Seq<u8>, x: int, y: int, d: int) -> Seq<u8>
    recommends
        regs.len() == 16,
        0 <= x < 16,
        0 <= y < 16,
        0 <= d <= 5,
{
    let a = regs[x];
    let b = regs[y];
    if d == 0 {
        regs.update(x, b)
    } else if d == 1 {
        regs.update(x, a | b)
    } else if d == 2 {
        regs.update(x, a & b)
    } else if d == 3 {
        regs.update(x, a ^ b)
    } else if d == 4 {
        regs.update(x, (((a + b) % 256) as u8)).update(
            15,
            (if a + b > 255 {
                1u8
            } else {
                0u8
            }),
        )
    } else {
        regs.update(x, (((a - b) % 256) as u8)).update(
            15,
            (if a >= b {
                1u8
            } else {
                0u8
            }),
        )
    }
}

/// The diagnostic for a word nothing handles, fetched at address `a`.
pub open spec fn unsupported_at(w: int, a: int) -> CpuError {
    CpuError::UnsupportedInstruction { word: w as u16, addr: a as usize }
}

/// What one fetch-decode-execute round does: continue in a new state, halt,
/// or abort with a fatal error, leaving the machine as the carried state.
pub enum StepResult {
    Next(State),
    Halted(State),
    Failed(CpuError, State),
}

/// One round of the machine, starting from `s`: fetch the word at the program
/// counter, advance the counter by 2, then dispatch on the top nibble.
pub open spec fn step(s: State) -> StepResult
    recommends
        s.wf(),
{
    if s.pc + 1 >= 4096 {
        StepResult::Failed(CpuError::OutOfBounds, s)
    } else {
        let w = word_at(s.mem, s.pc);
        let t = State { pc: s.pc + 2, ..s };
        if family_of(w) == 0x0 {
            // This family is selected by the entire word, not the low nibble.
            if w == 0x0000 {
                StepResult::Halted(t)
            } else if w == 0x00EE {
                if t.sp == 0 {
                    StepResult::Failed(CpuError::StackUnderflow, t)
                } else {
                    StepResult::Next(
                        State { pc: t.stack[t.sp - 1] as int, sp: t.sp - 1, ..t },
                    )
                }
            } else {
                StepResult::Failed(unsupported_at(w, s.pc), t)
            }
        } else if family_of(w) == 0x2 {
            if t.sp >= 16 {
                StepResult::Failed(CpuError::StackOverflow, t)
            } else {
                StepResult::Next(
                    State {
                        stack: t.stack.update(t.sp, (t.pc as u16)),
                        sp: t.sp + 1,
                        pc: addr12_of(w),
                        ..t
                    },
                )
            }
        } else if family_of(w) == 0x8 {
            if sub_op_of(w) <= 5 {
                StepResult::Next(
                    State { regs: alu_result(t.regs, reg_x_of(w), reg_y_of(w), sub_op_of(w)), ..t },
                )
            } else {
                StepResult::Failed(unsupported_at(w, s.pc), t)
            }
        } else {
            StepResult::Failed(unsupported_at(w, s.pc), t)
        }
    }
}

/// The arithmetic decode agrees with the instruction word's bit layout:
/// the family is bits 15-12, the register indices bits 11-8 and 7-4, the
/// sub-operation bits 3-0, and the immediate address bits 11-0.
pub proof fn lemma_decode_matches_bits(w: u16)
    ensures
        family_of(w as int) == (w >> 12) & 0xF,
        reg_x_of(w as int) == (w >> 8) & 0xF,
        reg_y_of(w as int) == (w >> 4) & 0xF,
        sub_op_of(w as int) == w & 0xF,
        addr12_of(w as int) == w & 0xFFF,
{
    assert((w >> 12) & 0xF == w / 0x1000 && (w >> 8) & 0xF == (w / 0x100) % 16 && (w >> 4) & 0xF
        == (w / 16) % 16 && w & 0xF == w % 16 && w & 0xFFF == w % 0x1000) by (bit_vector);
}

/// Decoding recovers the four nibbles an instruction word was built from.
pub proof fn lemma_decode_fields(f: int, x: int, y: int, d: int)
    requires
        0 <= f < 16,
        0 <= x < 16,
        0 <= y < 16,
        0 <= d < 16,
    ensures
        family_of(f * 0x1000 + x * 0x100 + y * 0x10 + d) == f,
        reg_x_of(f * 0x1000 + x * 0x100 + y * 0x10 + d) == x,
        reg_y_of(f * 0x1000 + x * 0x100 + y * 0x10 + d) == y,
        sub_op_of(f * 0x1000 + x * 0x100 + y * 0x10 + d) == d,
        addr12_of(f * 0x1000 + x * 0x100 + y * 0x10 + d) == x * 0x100 + y * 0x10 + d,
{
    let w = f * 0x1000 + x * 0x100 + y * 0x10 + d;
    assert(w / 0x1000 == f && (w / 0x100) % 16 == x && (w / 16) % 16 == y && w % 16 == d && w
        % 0x1000 == x * 0x100 + y * 0x10 + d) by (nonlinear_arith)
        requires
            w == f * 0x1000 + x * 0x100 + y * 0x10 + d,
            0 <= f < 16,
            0 <= x < 16,
            0 <= y < 16,
            0 <= d < 16,
    ;
}

/// Where the machine stands after `n` rounds from `s`: `Next(m)` while it is
/// still running at `m`; once a round halts or fails, that outcome is kept.
pub open spec fn run_for(s: State, n: nat) -> StepResult
    decreases n,
{
    if n == 0 {
        StepResult::Next(s)
    } else {
        match run_for(s, (n - 1) as nat) {
            StepResult::Next(m) => step(m),
            r => r,
        }
    }
}

/// A run still going at `s1` after `n` rounds continues with one more round
/// of `step`.
pub proof fn lemma_run_for_next(s0: State, s1: State, n: nat)
    requires
        run_for(s0, n) == StepResult::Next(s1),
    ensures
        run_for(s0, n + 1) == step(s1),
{
    let n1: nat = n + 1;
    assert(run_for(s0, (n1 - 1) as nat) == StepResult::Next(s1));
}

/// Lexicographic termination measure for the run loop, one component per
/// call-stack slot.  Slot `i` below the stack pointer will resume at the
/// return address `stack[i]`; the running frame stands at `pc`; slots above
/// are idle.  An ALU or fetch round moves the running frame's component
/// down by 2; a CALL overwrites the running component with one 2 smaller
/// and opens a fresh frame; a RETURN zeroes the running component.  So every
/// round moves the tuple strictly down in lexicographic order, and the run
/// loop terminates.
pub open spec fn frame_measure(s: State, i: int) -> int {
    if i < s.sp {
        4097 - s.stack[i]
    } else if i == s.sp {
        4097 - s.pc
    } else {
        0
    }
}

/// Every round preserves well-formedness of the machine state, whichever way
/// it ends.
pub proof fn lemma_step_wf(s: State)
    requires
        s.wf(),
    ensures
        step(s) matches StepResult::Next(t) ==> t.wf(),
        step(s) matches StepResult::Halted(t) ==> t.wf(),
        step(s) matches StepResult::Failed(_, t) ==> t.wf(),
{
}

/// A CALL round followed at once by the RETURN round it jumped to brings the
/// program counter to the address immediately after the CALL word, leaves
/// the stack pointer as it stood before the CALL, and touches neither the
/// registers, the memory, nor any live stack slot.
pub proof fn lemma_call_then_return(s: State)
    requires
        s.wf(),
        s.pc + 1 < 4096,
        family_of(word_at(s.mem, s.pc)) == 0x2,
        s.sp < 16,
        addr12_of(word_at(s.mem, s.pc)) + 1 < 4096,
        word_at(s.mem, addr12_of(word_at(s.mem, s.pc))) == 0x00EE,
    ensures
        step(s) is Next,
        step(step(s)->Next_0) is Next,
        ({
            let s2 = step(step(s)->Next_0)->Next_0;
            &&& s2.pc == s.pc + 2
            &&& s2.sp == s.sp
            &&& s2.regs == s.regs
            &&& s2.mem == s.mem
            &&& forall|i: int| 0 <= i < s.sp ==> s2.stack[i] == s.stack[i]
        }),
{
    let w = word_at(s.mem, s.pc);
    let a = addr12_of(w);
    let s1 = step(s)->Next_0;
    assert(s1.pc == a && s1.sp == s.sp + 1 && s1.mem == s.mem);
    assert(s1.stack[s.sp] == (s.pc + 2) as u16);
    assert(family_of(word_at(s1.mem, s1.pc)) == 0x0);
}

/// A CALL round succeeds, pushing one return address, exactly while the
/// stack has room: 16 nested CALLs from an empty stack go through, and the
/// seventeenth overflows.  A RETURN round fails exactly on an empty stack.
pub proof fn lemma_stack_capacity(s: State)
    requires
        s.wf(),
        s.pc + 1 < 4096,
    ensures
        family_of(word_at(s.mem, s.pc)) == 0x2 && s.sp < 16 ==> (step(s) matches StepResult::Next(
            t,
        ) && t.sp == s.sp + 1),
        family_of(word_at(s.mem, s.pc)) == 0x2 && s.sp == 16 ==> step(s) matches StepResult::Failed(
            CpuError::StackOverflow,
            _,
        ),
        word_at(s.mem, s.pc) == 0x00EE && s.sp > 0 ==> (step(s) matches StepResult::Next(t)
            && t.sp == s.sp - 1),
        word_at(s.mem, s.pc) == 0x00EE && s.sp == 0 ==> step(s) matches StepResult::Failed(
            CpuError::StackUnderflow,
            _,
        ),
{
}

/// MOVE, OR, AND and XOR write nothing but the destination register: in
/// particular, with a destination other than register 15 they leave the
/// carry/borrow flag alone.  Only ADD and SUB write it as a side effect.
pub proof fn lemma_logic_ops_touch_only_x(regs: Seq<u8>, x: int, y: int, d: int)
    requires
        regs.len() == 16,
        0 <= x < 16,
        0 <= y < 16,
        0 <= d <= 3,
    ensures
        forall|i: int| 0 <= i < 16 && i != x ==> alu_result(regs, x, y, d)[i] == regs[i],
        x != 15 ==> alu_result(regs, x, y, d)[15] == regs[15],
{
}

} // verus!
