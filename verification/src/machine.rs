//! The executable virtual machine, verified against the specification-level
//! semantics in [`crate::state`].
//!
//! A `VirtualMachine` owns its register file, its memory, and the two byte
//! buffers that stand for the injected input source and output sink; host
//! code feeds bytes in with [`VirtualMachine::feed_input`] and drains what
//! the machine wrote with [`VirtualMachine::take_output`]. Instances share
//! nothing, so independent machines can run side by side.

use vstd::prelude::*;
use crate::bits::{sext, word_add};
use crate::isa::{MEMORY_MAX, NUM_REGS, OPCode, R_COND, R_PC, StepResult, VmError, lemma_field_ranges};
use crate::isa::{TRAP_GETC, TRAP_HALT, TRAP_IN, TRAP_OUT, TRAP_PUTS, TRAP_PUTSP};
use crate::state::{
    MState, flag_for, lemma_puts_scan, lemma_putsp_scan, prompt_bytes, puts_bytes, puts_prefix,
    putsp_bytes, putsp_prefix, reaches, spec_add, spec_and, spec_br, spec_jmp, spec_jsr,
    spec_ld, spec_ldi, spec_ldr, spec_lea, spec_not, spec_st, spec_sti, spec_str, spec_step,
    spec_trap, st_wf, with_flag, with_reg,
};

verus! {

/// A complete machine instance: registers R0..R7 followed by the program
/// counter and the condition register, 65536 words of memory, and the two
/// byte buffers of the trap dispatcher.
pub struct VirtualMachine {
    registers: Vec<u16>,
    memory: Vec<u16>,
    input: Vec<u8>,
    input_pos: usize,
    output: Vec<u8>,
}

/// A vector of `n` zero words.
fn zero_words(n: usize) -> (v: Vec<u16>)
    ensures
        v@ == Seq::new(n as nat, |i: int| 0u16),
{
    let mut v: Vec<u16> = Vec::new();
    let mut k: usize = 0;
    while k < n
        invariant
            k <= n,
            v@.len() == k,
            forall|i: int| 0 <= i < k ==> v@[i] == 0u16,
        decreases n - k,
    {
        v.push(0);
        k = k + 1;
    }
    proof {
        assert(v@ =~= Seq::new(n as nat, |i: int| 0u16));
    }
    v
}

impl View for VirtualMachine {
    type V = MState;

    /// The abstract state: the machine's registers and memory as sequences,
    /// the input bytes not yet consumed, and the output written so far.
    closed spec fn view(&self) -> MState {
        MState {
            regs: self.registers@,
            mem: self.memory@,
            input: self.input@.skip(self.input_pos as int),
            output: self.output@,
        }
    }
}

impl VirtualMachine {
    /// The unconsumed part of the input buffer is what the abstract input
    /// sequence shows.
    pub closed spec fn input_ok(&self) -> bool {
        self.input_pos <= self.input@.len()
    }

    /// Well-formed machine: the abstract state has its full register file
    /// and memory, and the input cursor is inside its buffer.
    pub open spec fn wf(&self) -> bool {
        &&& st_wf(self@)
        &&& self.input_ok()
    }

    /// A fresh machine: all registers and memory cells zero, no input, no
    /// output.
    pub fn new() -> (vm: Self)
        ensures
            vm.wf(),
            vm@.regs == Seq::new(NUM_REGS as nat, |i: int| 0u16),
            vm@.mem == Seq::new(MEMORY_MAX as nat, |i: int| 0u16),
            vm@.input == Seq::<u8>::empty(),
            vm@.output == Seq::<u8>::empty(),
    {
        let vm = VirtualMachine {
            registers: zero_words(NUM_REGS),
            memory: zero_words(MEMORY_MAX),
            input: Vec::new(),
            input_pos: 0,
            output: Vec::new(),
        };
        proof {
            assert(vm@.input =~= Seq::<u8>::empty());
        }
        vm
    }

    /// Bounds-checked memory read: the cell at `pos`, or `OutOfBounds` for
    /// any address at or past `MEMORY_MAX` — an address one past the end
    /// fails, it never wraps.
    pub fn read(&self, pos: usize) -> (r: Result<u16, VmError>)
        requires
            self.wf(),
        ensures
            pos < MEMORY_MAX ==> r == Ok::<u16, VmError>(self@.mem[pos as int]),
            pos >= MEMORY_MAX ==> r == Err::<u16, VmError>(VmError::OutOfBounds),
    {
        if pos < MEMORY_MAX {
            Ok(self.memory[pos])
        } else {
            Err(VmError::OutOfBounds)
        }
    }

    /// Bounds-checked memory write, with the same address contract as
    /// `read`. On an error nothing changes.
    pub fn write(&mut self, pos: usize, value: u16) -> (r: Result<(), VmError>)
        requires
            old(self).wf(),
        ensures
            final(self).wf(),
            pos < MEMORY_MAX ==> r == Ok::<(), VmError>(())
                && final(self)@ == (MState {
                    mem: old(self)@.mem.update(pos as int, value),
                    ..old(self)@
                }),
            pos >= MEMORY_MAX ==> r == Err::<(), VmError>(VmError::OutOfBounds)
                && final(self)@ == old(self)@,
    {
        if pos < MEMORY_MAX {
            self.memory[pos] = value;
            Ok(())
        } else {
            Err(VmError::OutOfBounds)
        }
    }

    /// Double-indirect memory read, the addressing step of `LDI` and `STI`:
    /// the word whose address is stored at `pos`. The outer address is
    /// bounds-checked; the stored pointer is a 16-bit word and is always in
    /// range.
    pub fn mem_read(&self, pos: usize) -> (r: Result<u16, VmError>)
        requires
            self.wf(),
        ensures
            pos < MEMORY_MAX ==> r == Ok::<u16, VmError>(
                self@.mem[self@.mem[pos as int] as int],
            ),
            pos >= MEMORY_MAX ==> r == Err::<u16, VmError>(VmError::OutOfBounds),
    {
        if pos < MEMORY_MAX {
            let ptr = self.memory[pos];
            Ok(self.memory[ptr as usize])
        } else {
            Err(VmError::OutOfBounds)
        }
    }

    /// The value of register slot `r` (R0..R7, then PC, then COND).
    pub fn get(&self, r: u16) -> (v: u16)
        requires
            self.wf(),
            r < NUM_REGS as u16,
        ensures
            v == self@.regs[r as int],
    {
        self.registers[r as usize]
    }

    /// Plain write to register slot `r`; the condition register is not
    /// touched.
    pub fn set(&mut self, r: u16, value: u16)
        requires
            old(self).wf(),
            r < NUM_REGS as u16,
        ensures
            final(self).wf(),
            final(self)@ == with_reg(old(self)@, r as int, value),
    {
        self.registers[r as usize] = value;
    }

    /// Recomputes the condition register from the value register `r`
    /// currently holds: `FL_ZRO` for zero, `FL_NEG` when bit 15 is set,
    /// `FL_POS` otherwise.
    pub fn update_flags(&mut self, r: u16)
        requires
            old(self).wf(),
            r < 8,
        ensures
            final(self).wf(),
            final(self)@ == with_reg(
                old(self)@,
                R_COND as int,
                flag_for(old(self)@.regs[r as int]),
            ),
    {
        let v = self.registers[r as usize];
        if v == 0 {
            self.registers[R_COND] = crate::isa::FL_ZRO;
        } else if v >= 0x8000 {
            self.registers[R_COND] = crate::isa::FL_NEG;
        } else {
            self.registers[R_COND] = crate::isa::FL_POS;
        }
    }

    /// Flagged register write: sets the data register, then recomputes the
    /// condition register from the written value. Used by every opcode
    /// whose result is a data value.
    pub fn set_and_flag(&mut self, r: u16, value: u16)
        requires
            old(self).wf(),
            r < 8,
        ensures
            final(self).wf(),
            final(self)@ == with_flag(old(self)@, r as int, value),
    {
        self.registers[r as usize] = value;
        self.update_flags(r);
    }

    /// Points the program counter at `addr`.
    pub fn set_pc(&mut self, addr: u16)
        requires
            old(self).wf(),
        ensures
            final(self).wf(),
            final(self)@ == with_reg(old(self)@, R_PC as int, addr),
    {
        self.registers[R_PC] = addr;
    }

    /// Copies a program image into memory starting at `origin`, leaving
    /// everything else untouched. An image that would run past the end of
    /// memory is rejected whole: nothing is copied.
    pub fn load_image(&mut self, words: &Vec<u16>, origin: u16) -> (r: Result<(), VmError>)
        requires
            old(self).wf(),
        ensures
            final(self).wf(),
            origin + words@.len() <= MEMORY_MAX ==> {
                &&& r == Ok::<(), VmError>(())
                &&& final(self)@.mem.len() == MEMORY_MAX
                &&& forall|i: int|
                    origin <= i < origin + words@.len()
                        ==> final(self)@.mem[i] == words@[i - origin]
                &&& forall|i: int|
                    0 <= i < MEMORY_MAX && !(origin <= i < origin + words@.len())
                        ==> final(self)@.mem[i] == old(self)@.mem[i]
                &&& final(self)@.regs == old(self)@.regs
                &&& final(self)@.input == old(self)@.input
                &&& final(self)@.output == old(self)@.output
            },
            origin + words@.len() > MEMORY_MAX ==> r == Err::<(), VmError>(VmError::OutOfBounds)
                && final(self)@ == old(self)@,
    {
        if words.len() > MEMORY_MAX - (origin as usize) {
            return Err(VmError::OutOfBounds);
        }
        let mut k: usize = 0;
        while k < words.len()
            invariant
                self.wf(),
                k <= words@.len(),
                origin + words@.len() <= MEMORY_MAX,
                self@.mem.len() == MEMORY_MAX,
                forall|i: int| origin <= i < origin + k ==> self@.mem[i] == words@[i - origin],
                forall|i: int|
                    0 <= i < MEMORY_MAX && !(origin <= i < origin + k) ==> self@.mem[i] == old(
                        self,
                    )@.mem[i],
                self@.regs == old(self)@.regs,
                self@.input == old(self)@.input,
                self@.output == old(self)@.output,
            decreases words@.len() - k,
        {
            self.memory[origin as usize + k] = words[k];
            k = k + 1;
        }
        Ok(())
    }

    /// Appends bytes to the injected input source; the trap dispatcher
    /// consumes them in order.
    pub fn feed_input(&mut self, bytes: &Vec<u8>)
        requires
            old(self).wf(),
        ensures
            final(self).wf(),
            final(self)@ == (MState { input: old(self)@.input + bytes@, ..old(self)@ }),
    {
        let mut k: usize = 0;
        while k < bytes.len()
            invariant
                self.wf(),
                k <= bytes@.len(),
                self.input@ == old(self).input@ + bytes@.take(k as int),
                self.input_pos == old(self).input_pos,
                self.registers@ == old(self).registers@,
                self.memory@ == old(self).memory@,
                self.output@ == old(self).output@,
            decreases bytes@.len() - k,
        {
            proof {
                assert(old(self).input@ + bytes@.take(k as int + 1) =~= (old(self).input@
                    + bytes@.take(k as int)).push(bytes@[k as int]));
            }
            self.input.push(bytes[k]);
            k = k + 1;
        }
        proof {
            assert(bytes@.take(bytes@.len() as int) =~= bytes@);
            assert((old(self).input@ + bytes@).skip(self.input_pos as int) =~= old(
                self,
            ).input@.skip(self.input_pos as int) + bytes@);
            assert(self@ =~= (MState { input: old(self)@.input + bytes@, ..old(self)@ }));
        }
    }

    /// Hands the bytes written so far to the output sink and clears the
    /// machine's output buffer.
    pub fn take_output(&mut self) -> (out: Vec<u8>)
        requires
            old(self).wf(),
        ensures
            final(self).wf(),
            out@ == old(self)@.output,
            final(self)@ == (MState { output: Seq::<u8>::empty(), ..old(self)@ }),
    {
        let mut out: Vec<u8> = Vec::new();
        std::mem::swap(&mut out, &mut self.output);
        proof {
            assert(self@ =~= (MState { output: Seq::<u8>::empty(), ..old(self)@ }));
        }
        out
    }

    /// `ADD`: the destination register takes the first source register plus
    /// either a sign-extended 5-bit immediate (mode bit set) or a second
    /// source register, and the condition flags follow the result.
    pub fn add(&mut self, inst: u16)
        requires
            old(self).wf(),
        ensures
            final(self).wf(),
            final(self)@ == spec_add(old(self)@, inst),
    {
        proof {
            lemma_field_ranges(inst);
        }
        let r0 = (inst >> 9) & 0x7;
        let r1 = (inst >> 6) & 0x7;
        let mode = (inst >> 5) & 0x1;
        let a = self.get(r1);
        let b = if mode == 1 {
            sext(inst & 0x1F, 5)
        } else {
            self.get(inst & 0x7)
        };
        self.set_and_flag(r0, word_add(a, b));
    }

    /// `AND`: bitwise conjunction of the same operands `add` uses, with the
    /// condition flags following the result.
    pub fn and(&mut self, inst: u16)
        requires
            old(self).wf(),
        ensures
            final(self).wf(),
            final(self)@ == spec_and(old(self)@, inst),
    {
        proof {
            lemma_field_ranges(inst);
        }
        let r0 = (inst >> 9) & 0x7;
        let r1 = (inst >> 6) & 0x7;
        let mode = (inst >> 5) & 0x1;
        let a = self.get(r1);
        let b = if mode == 1 {
            sext(inst & 0x1F, 5)
        } else {
            self.get(inst & 0x7)
        };
        self.set_and_flag(r0, a & b);
    }

    /// `NOT`: bitwise complement of the source register, with the condition
    /// flags following the result.
    pub fn not(&mut self, inst: u16)
        requires
            old(self).wf(),
        ensures
            final(self).wf(),
            final(self)@ == spec_not(old(self)@, inst),
    {
        proof {
            lemma_field_ranges(inst);
        }
        let r0 = (inst >> 9) & 0x7;
        let r1 = (inst >> 6) & 0x7;
        let v = !self.get(r1);
        self.set_and_flag(r0, v);
    }

    /// `LD`: the destination register takes the word at the PC-relative
    /// address, with the condition flags following the result.
    pub fn ld(&mut self, inst: u16)
        requires
            old(self).wf(),
        ensures
            final(self).wf(),
            final(self)@ == spec_ld(old(self)@, inst),
    {
        proof {
            lemma_field_ranges(inst);
        }
        let r0 = (inst >> 9) & 0x7;
        let addr = word_add(self.get(R_PC as u16), sext(inst & 0x1FF, 9));
        let v = self.memory[addr as usize];
        self.set_and_flag(r0, v);
    }

    /// `LDI`: the destination register takes the word the PC-relative cell
    /// points at (double indirection), with the condition flags following
    /// the result.
    pub fn ldi(&mut self, inst: u16)
        requires
            old(self).wf(),
        ensures
            final(self).wf(),
            final(self)@ == spec_ldi(old(self)@, inst),
    {
        proof {
            lemma_field_ranges(inst);
        }
        let r0 = (inst >> 9) & 0x7;
        let addr = word_add(self.get(R_PC as u16), sext(inst & 0x1FF, 9));
        let ptr = self.memory[addr as usize];
        let v = self.memory[ptr as usize];
        self.set_and_flag(r0, v);
    }

    /// `LDR`: the destination register takes the word at base register plus
    /// sign-extended 6-bit offset, with the condition flags following the
    /// result.
    pub fn ldr(&mut self, inst: u16)
        requires
            old(self).wf(),
        ensures
            final(self).wf(),
            final(self)@ == spec_ldr(old(self)@, inst),
    {
        proof {
            lemma_field_ranges(inst);
        }
        let r0 = (inst >> 9) & 0x7;
        let base = (inst >> 6) & 0x7;
        let addr = word_add(self.get(base), sext(inst & 0x3F, 6));
        let v = self.memory[addr as usize];
        self.set_and_flag(r0, v);
    }

    /// `LEA`: the destination register takes the PC-relative effective
    /// address itself — no memory access — with the condition flags
    /// following the result.
    pub fn lea(&mut self, inst: u16)
        requires
            old(self).wf(),
        ensures
            final(self).wf(),
            final(self)@ == spec_lea(old(self)@, inst),
    {
        proof {
            lemma_field_ranges(inst);
        }
        let r0 = (inst >> 9) & 0x7;
        let v = word_add(self.get(R_PC as u16), sext(inst & 0x1FF, 9));
        self.set_and_flag(r0, v);
    }

    /// `ST`: stores the source register at the PC-relative address. The
    /// condition flags are not touched.
    pub fn st(&mut self, inst: u16)
        requires
            old(self).wf(),
        ensures
            final(self).wf(),
            final(self)@ == spec_st(old(self)@, inst),
    {
        proof {
            lemma_field_ranges(inst);
        }
        let src = (inst >> 9) & 0x7;
        let addr = word_add(self.get(R_PC as u16), sext(inst & 0x1FF, 9));
        let v = self.get(src);
        self.memory[addr as usize] = v;
    }

    /// `STI`: stores the source register through the pointer held at the
    /// PC-relative address.
    pub fn sti(&mut self, inst: u16)
        requires
            old(self).wf(),
        ensures
            final(self).wf(),
            final(self)@ == spec_sti(old(self)@, inst),
    {
        proof {
            lemma_field_ranges(inst);
        }
        let src = (inst >> 9) & 0x7;
        let addr = word_add(self.get(R_PC as u16), sext(inst & 0x1FF, 9));
        let ptr = self.memory[addr as usize];
        let v = self.get(src);
        self.memory[ptr as usize] = v;
    }

    /// `STR`: stores the source register at base register plus
    /// sign-extended 6-bit offset.
    pub fn str(&mut self, inst: u16)
        requires
            old(self).wf(),
        ensures
            final(self).wf(),
            final(self)@ == spec_str(old(self)@, inst),
    {
        proof {
            lemma_field_ranges(inst);
        }
        let src = (inst >> 9) & 0x7;
        let base = (inst >> 6) & 0x7;
        let addr = word_add(self.get(base), sext(inst & 0x3F, 6));
        let v = self.get(src);
        self.memory[addr as usize] = v;
    }

    /// `BR`: moves the program counter by the sign-extended 9-bit offset
    /// when the instruction's {N, Z, P} mask covers the current condition
    /// flag, and does nothing otherwise.
    pub fn br(&mut self, inst: u16)
        requires
            old(self).wf(),
        ensures
            final(self).wf(),
            final(self)@ == spec_br(old(self)@, inst),
    {
        proof {
            lemma_field_ranges(inst);
        }
        let mask = (inst >> 9) & 0x7;
        let cond = self.get(R_COND as u16);
        if mask & cond != 0 {
            let pc = self.get(R_PC as u16);
            let target = word_add(pc, sext(inst & 0x1FF, 9));
            self.set(R_PC as u16, target);
        }
    }

    /// `JMP`: the program counter takes the base register's value; with R7
    /// as the base this is the return-from-subroutine form.
    pub fn jmp(&mut self, inst: u16)
        requires
            old(self).wf(),
        ensures
            final(self).wf(),
            final(self)@ == spec_jmp(old(self)@, inst),
    {
        proof {
            lemma_field_ranges(inst);
        }
        let base = (inst >> 6) & 0x7;
        let target = self.get(base);
        self.set(R_PC as u16, target);
    }

    /// `JSR`: R7 takes the already-advanced program counter, then the
    /// program counter takes the PC-relative target (mode bit set) or the
    /// base register's value as read after the R7 write.
    pub fn jsr(&mut self, inst: u16)
        requires
            old(self).wf(),
        ensures
            final(self).wf(),
            final(self)@ == spec_jsr(old(self)@, inst),
    {
        proof {
            lemma_field_ranges(inst);
        }
        let saved = self.get(R_PC as u16);
        self.set(7, saved);
        let target = if (inst >> 11) & 1 == 1 {
            word_add(saved, sext(inst & 0x7FF, 11))
        } else {
            self.get((inst >> 6) & 0x7)
        };
        self.set(R_PC as u16, target);
    }

    /// `TRAP GETC`: consumes one input byte into R0, without echo and
    /// without touching the flags; fails with `IOFailure`, changing
    /// nothing, when no input is available.
    fn trap_getc(&mut self) -> (r: StepResult)
        requires
            old(self).wf(),
        ensures
            final(self).wf(),
            old(self)@.input.len() == 0 ==> final(self)@ == old(self)@ && r == StepResult::Error(
                VmError::IOFailure,
            ),
            old(self)@.input.len() > 0 ==> final(self)@ == (MState {
                regs: old(self)@.regs.update(0, old(self)@.input[0] as u16),
                input: old(self)@.input.skip(1),
                ..old(self)@
            }) && r == StepResult::Continue,
    {
        if self.input_pos < self.input.len() {
            let b = self.input[self.input_pos];
            self.input_pos = self.input_pos + 1;
            self.registers[0] = b as u16;
            proof {
                assert(self@.input =~= old(self)@.input.skip(1));
                assert(self@ =~= (MState {
                    regs: old(self)@.regs.update(0, old(self)@.input[0] as u16),
                    input: old(self)@.input.skip(1),
                    ..old(self)@
                }));
            }
            StepResult::Continue
        } else {
            StepResult::Error(VmError::IOFailure)
        }
    }

    /// `TRAP OUT`: appends the low byte of R0 to the output sink.
    fn trap_out(&mut self) -> (r: StepResult)
        requires
            old(self).wf(),
        ensures
            final(self).wf(),
            final(self)@ == (MState {
                output: old(self)@.output.push((old(self)@.regs[0] & 0xFF) as u8),
                ..old(self)@
            }),
            r == StepResult::Continue,
    {
        let v = self.registers[0];
        proof {
            lemma_field_ranges(v);
        }
        self.output.push((v & 0xFF) as u8);
        StepResult::Continue
    }

    /// `TRAP PUTS`: writes the null-terminated string starting at address
    /// R0, one character per word, to the output sink. A string with no
    /// zero word before the end of memory cannot complete: `IOFailure`,
    /// with nothing written.
    fn trap_puts(&mut self) -> (r: StepResult)
        requires
            old(self).wf(),
        ensures
            final(self).wf(),
            (match puts_bytes(old(self)@.mem, old(self)@.regs[0] as int) {
                None => final(self)@ == old(self)@ && r == StepResult::Error(VmError::IOFailure),
                Some(bs) => final(self)@ == (MState {
                    output: old(self)@.output + bs,
                    ..old(self)@
                }) && r == StepResult::Continue,
            }),
    {
        let start = self.registers[0];
        let mut buf: Vec<u8> = Vec::new();
        let mut a: usize = start as usize;
        proof {
            assert(buf@ =~= puts_prefix(self@.mem, start as int, a as int));
        }
        while a < MEMORY_MAX && self.memory[a] != 0
            invariant
                self.wf(),
                self@ == old(self)@,
                start as int <= a as int <= MEMORY_MAX as int,
                forall|j: int| start <= j < a ==> self@.mem[j] != 0,
                buf@ == puts_prefix(self@.mem, start as int, a as int),
            decreases MEMORY_MAX - a,
        {
            let w = self.memory[a];
            proof {
                lemma_field_ranges(w);
            }
            buf.push((w & 0xFF) as u8);
            a = a + 1;
            proof {
                assert(buf@ =~= puts_prefix(self@.mem, start as int, a as int));
            }
        }
        proof {
            lemma_puts_scan(self@.mem, start as int, a as int);
        }
        if a < MEMORY_MAX {
            self.output.append(&mut buf);
            proof {
                assert(self@ =~= (MState {
                    output: old(self)@.output + puts_prefix(
                        old(self)@.mem,
                        start as int,
                        a as int,
                    ),
                    ..old(self)@
                }));
            }
            StepResult::Continue
        } else {
            StepResult::Error(VmError::IOFailure)
        }
    }

    /// `TRAP IN`: writes a short prompt, consumes one input byte into R0,
    /// and echoes it to the output sink; fails with `IOFailure`, changing
    /// nothing, when no input is available.
    fn trap_in(&mut self) -> (r: StepResult)
        requires
            old(self).wf(),
        ensures
            final(self).wf(),
            old(self)@.input.len() == 0 ==> final(self)@ == old(self)@ && r == StepResult::Error(
                VmError::IOFailure,
            ),
            old(self)@.input.len() > 0 ==> final(self)@ == (MState {
                regs: old(self)@.regs.update(0, old(self)@.input[0] as u16),
                input: old(self)@.input.skip(1),
                output: old(self)@.output + prompt_bytes() + seq![old(self)@.input[0]],
                ..old(self)@
            }) && r == StepResult::Continue,
    {
        if self.input_pos < self.input.len() {
            self.output.push(0x3E);
            self.output.push(0x20);
            let b = self.input[self.input_pos];
            self.input_pos = self.input_pos + 1;
            self.registers[0] = b as u16;
            self.output.push(b);
            proof {
                assert(self@.input =~= old(self)@.input.skip(1));
                assert(self@.output =~= old(self)@.output + prompt_bytes() + seq![
                    old(self)@.input[0],
                ]);
                assert(self@ =~= (MState {
                    regs: old(self)@.regs.update(0, old(self)@.input[0] as u16),
                    input: old(self)@.input.skip(1),
                    output: old(self)@.output + prompt_bytes() + seq![old(self)@.input[0]],
                    ..old(self)@
                }));
            }
            StepResult::Continue
        } else {
            StepResult::Error(VmError::IOFailure)
        }
    }

    /// `TRAP PUTSP`: writes the null-terminated packed string starting at
    /// address R0, two characters per word with the low byte first, to the
    /// output sink. A string with no zero word before the end of memory
    /// cannot complete: `IOFailure`, with nothing written.
    fn trap_putsp(&mut self) -> (r: StepResult)
        requires
            old(self).wf(),
        ensures
            final(self).wf(),
            (match putsp_bytes(old(self)@.mem, old(self)@.regs[0] as int) {
                None => final(self)@ == old(self)@ && r == StepResult::Error(VmError::IOFailure),
                Some(bs) => final(self)@ == (MState {
                    output: old(self)@.output + bs,
                    ..old(self)@
                }) && r == StepResult::Continue,
            }),
    {
        let start = self.registers[0];
        let mut buf: Vec<u8> = Vec::new();
        let mut a: usize = start as usize;
        while a < MEMORY_MAX && self.memory[a] != 0
            invariant
                self.wf(),
                self@ == old(self)@,
                start as int <= a as int <= MEMORY_MAX as int,
                forall|j: int| start <= j < a ==> self@.mem[j] != 0,
                buf@ == putsp_prefix(self@.mem, start as int, a as int),
            decreases MEMORY_MAX - a,
        {
            let w = self.memory[a];
            proof {
                lemma_field_ranges(w);
            }
            buf.push((w & 0xFF) as u8);
            if (w >> 8) as u8 != 0 {
                buf.push((w >> 8) as u8);
            }
            a = a + 1;
            proof {
                assert(buf@ =~= putsp_prefix(self@.mem, start as int, a as int));
            }
        }
        proof {
            lemma_putsp_scan(self@.mem, start as int, a as int);
        }
        if a < MEMORY_MAX {
            self.output.append(&mut buf);
            proof {
                assert(self@ =~= (MState {
                    output: old(self)@.output + putsp_prefix(
                        old(self)@.mem,
                        start as int,
                        a as int,
                    ),
                    ..old(self)@
                }));
            }
            StepResult::Continue
        } else {
            StepResult::Error(VmError::IOFailure)
        }
    }

    /// `TRAP`: dispatches the instruction's 8-bit vector to the matching
    /// input/output primitive; `HALT` stops the machine, and an unknown
    /// vector is an invalid-opcode error with nothing changed.
    pub fn trap(&mut self, inst: u16) -> (r: StepResult)
        requires
            old(self).wf(),
        ensures
            final(self).wf(),
            final(self)@ == spec_trap(old(self)@, inst).0,
            r == spec_trap(old(self)@, inst).1,
    {
        proof {
            lemma_field_ranges(inst);
        }
        let v = inst & 0xFF;
        if v == TRAP_GETC {
            self.trap_getc()
        } else if v == TRAP_OUT {
            self.trap_out()
        } else if v == TRAP_PUTS {
            self.trap_puts()
        } else if v == TRAP_IN {
            self.trap_in()
        } else if v == TRAP_PUTSP {
            self.trap_putsp()
        } else if v == TRAP_HALT {
            StepResult::Halted
        } else {
            StepResult::Error(VmError::InvalidOpcode)
        }
    }

    /// Executes exactly one instruction: fetches the word at the program
    /// counter, advances the program counter, and dispatches on the opcode.
    /// The machine moves to exactly the state the specification-level step
    /// function gives, with the same outcome.
    pub fn step(&mut self) -> (r: StepResult)
        requires
            old(self).wf(),
        ensures
            final(self).wf(),
            final(self)@ == spec_step(old(self)@).0,
            r == spec_step(old(self)@).1,
    {
        let pc = self.get(R_PC as u16);
        let inst = self.memory[pc as usize];
        self.set(R_PC as u16, word_add(pc, 1));
        proof {
            lemma_field_ranges(inst);
        }
        match OPCode::get(inst >> 12) {
            Some(OPCode::Br) => {
                self.br(inst);
                StepResult::Continue
            },
            Some(OPCode::Add) => {
                self.add(inst);
                StepResult::Continue
            },
            Some(OPCode::Ld) => {
                self.ld(inst);
                StepResult::Continue
            },
            Some(OPCode::St) => {
                self.st(inst);
                StepResult::Continue
            },
            Some(OPCode::Jsr) => {
                self.jsr(inst);
                StepResult::Continue
            },
            Some(OPCode::And) => {
                self.and(inst);
                StepResult::Continue
            },
            Some(OPCode::Ldr) => {
                self.ldr(inst);
                StepResult::Continue
            },
            Some(OPCode::Str) => {
                self.str(inst);
                StepResult::Continue
            },
            Some(OPCode::Rti) => StepResult::Error(VmError::InvalidOpcode),
            Some(OPCode::Not) => {
                self.not(inst);
                StepResult::Continue
            },
            Some(OPCode::Ldi) => {
                self.ldi(inst);
                StepResult::Continue
            },
            Some(OPCode::Sti) => {
                self.sti(inst);
                StepResult::Continue
            },
            Some(OPCode::Jmp) => {
                self.jmp(inst);
                StepResult::Continue
            },
            Some(OPCode::Res) => StepResult::Error(VmError::InvalidOpcode),
            Some(OPCode::Lea) => {
                self.lea(inst);
                StepResult::Continue
            },
            Some(OPCode::Trap) => self.trap(inst),
            None => StepResult::Error(VmError::InvalidOpcode),
        }
    }

    /// Calls `step` until a halt trap, an error, or a budget of
    /// `max_steps` executed instructions. The result is never `Continue`
    /// unless the budget ran out; on `Halted` or an error the final state
    /// is the specification-level state after the very step that stopped,
    /// reached from the starting state by a chain of continuing steps.
    pub fn run(&mut self, max_steps: usize) -> (r: StepResult)
        requires
            old(self).wf(),
        ensures
            final(self).wf(),
            r == StepResult::Continue ==> reaches(old(self)@, final(self)@, max_steps as nat),
            r != StepResult::Continue ==> exists|n: nat, m: MState|
                n < max_steps && #[trigger] reaches(old(self)@, m, n)
                    && spec_step(m).0 == final(self)@ && spec_step(m).1 == r,
    {
        let mut k: usize = 0;
        while k < max_steps
            invariant
                self.wf(),
                k <= max_steps,
                reaches(old(self)@, self@, k as nat),
            decreases max_steps - k,
        {
            let ghost pre = self@;
            let r = self.step();
            match r {
                StepResult::Continue => {
                    proof {
                        assert(reaches(old(self)@, pre, k as nat) && spec_step(pre).1
                            == StepResult::Continue && spec_step(pre).0 == self@);
                        assert(reaches(old(self)@, self@, (k + 1) as nat));
                    }
                },
                _ => {
                    proof {
                        assert(k < max_steps && reaches(old(self)@, pre, k as nat) && spec_step(
                            pre,
                        ).0 == self@ && spec_step(pre).1 == r);
                    }
                    return r;
                },
            }
            k = k + 1;
        }
        StepResult::Continue
    }
}

} // verus!
