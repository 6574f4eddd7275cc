//! The abstract machine state and the specification-level semantics of one
//! fetch-decode-execute step.
//!
//! [`spec_step`] is the single statement of what the machine does: it
//! fetches the word at the program counter, advances the program counter,
//! and applies the opcode's meaning from the instruction-set table. The
//! executable machine in [`crate::machine`] is verified against it.

use vstd::prelude::*;
use crate::bits::{sext_spec, wadd};
use crate::isa::{
    FL_NEG, FL_POS, FL_ZRO, MEMORY_MAX, NUM_REGS, OPCode, R_COND, R_PC, StepResult, TRAP_GETC,
    TRAP_HALT, TRAP_IN, TRAP_OUT, TRAP_PUTS, TRAP_PUTSP, VmError, dr_of, imm5_of, imm_flag_of,
    jsr_flag_of, nzp_of, off11_of, off6_of, off9_of, op_of, opcode_spec, sr1_of, sr2_of,
    trapvect_of,
};

verus! {

/// Abstract machine state: the register file (R0..R7, then PC, then COND),
/// the 65536 memory cells, the bytes not yet consumed from the injected
/// input source, and the bytes written so far to the output sink.
#[verifier::ext_equal]
pub struct MState {
    pub regs: Seq<u16>,
    pub mem: Seq<u16>,
    pub input: Seq<u8>,
    pub output: Seq<u8>,
}

/// Well-formed state: ten register slots and a full complement of memory
/// cells.
pub open spec fn st_wf(s: MState) -> bool {
    &&& s.regs.len() == NUM_REGS
    &&& s.mem.len() == MEMORY_MAX
}

/// The condition flag a data value produces: `FL_ZRO` for zero, `FL_NEG`
/// when bit 15 is set (the value is negative in two's complement), and
/// `FL_POS` otherwise.
pub open spec fn flag_for(v: u16) -> u16 {
    if v == 0 {
        FL_ZRO
    } else if v >= 0x8000 {
        FL_NEG
    } else {
        FL_POS
    }
}

/// The state after a plain register write.
pub open spec fn with_reg(s: MState, r: int, v: u16) -> MState {
    MState { regs: s.regs.update(r, v), ..s }
}

/// The state after a flagged register write: the register takes the value
/// and the condition register takes the flag the value produces.
pub open spec fn with_flag(s: MState, r: int, v: u16) -> MState {
    MState { regs: s.regs.update(r, v).update(R_COND as int, flag_for(v)), ..s }
}

/// `ADD`: the first operand register plus either the sign-extended 5-bit
/// immediate or the second operand register, written with flags.
pub open spec fn spec_add(s: MState, inst: u16) -> MState {
    let a = s.regs[sr1_of(inst) as int];
    let b = if imm_flag_of(inst) == 1 {
        sext_spec(imm5_of(inst), 5)
    } else {
        s.regs[sr2_of(inst) as int]
    };
    with_flag(s, dr_of(inst) as int, wadd(a, b))
}

/// `AND`: bitwise conjunction of the same operands `ADD` uses, written
/// with flags.
pub open spec fn spec_and(s: MState, inst: u16) -> MState {
    let a = s.regs[sr1_of(inst) as int];
    let b = if imm_flag_of(inst) == 1 {
        sext_spec(imm5_of(inst), 5)
    } else {
        s.regs[sr2_of(inst) as int]
    };
    with_flag(s, dr_of(inst) as int, a & b)
}

/// `NOT`: bitwise complement of the source register, written with flags.
pub open spec fn spec_not(s: MState, inst: u16) -> MState {
    with_flag(s, dr_of(inst) as int, !s.regs[sr1_of(inst) as int])
}

/// `LD`: load from the PC-relative address, written with flags.
pub open spec fn spec_ld(s: MState, inst: u16) -> MState {
    let addr = wadd(s.regs[R_PC as int], sext_spec(off9_of(inst), 9));
    with_flag(s, dr_of(inst) as int, s.mem[addr as int])
}

/// `LDI`: load through the pointer stored at the PC-relative address
/// (double indirection), written with flags.
pub open spec fn spec_ldi(s: MState, inst: u16) -> MState {
    let addr = wadd(s.regs[R_PC as int], sext_spec(off9_of(inst), 9));
    let ptr = s.mem[addr as int];
    with_flag(s, dr_of(inst) as int, s.mem[ptr as int])
}

/// `LDR`: load from base register plus sign-extended 6-bit offset, written
/// with flags.
pub open spec fn spec_ldr(s: MState, inst: u16) -> MState {
    let addr = wadd(s.regs[sr1_of(inst) as int], sext_spec(off6_of(inst), 6));
    with_flag(s, dr_of(inst) as int, s.mem[addr as int])
}

/// `LEA`: the PC-relative effective address itself, written with flags; no
/// memory access.
pub open spec fn spec_lea(s: MState, inst: u16) -> MState {
    with_flag(s, dr_of(inst) as int, wadd(s.regs[R_PC as int], sext_spec(off9_of(inst), 9)))
}

/// `ST`: store the source register at the PC-relative address.
pub open spec fn spec_st(s: MState, inst: u16) -> MState {
    let addr = wadd(s.regs[R_PC as int], sext_spec(off9_of(inst), 9));
    MState { mem: s.mem.update(addr as int, s.regs[dr_of(inst) as int]), ..s }
}

/// `STI`: store the source register through the pointer stored at the
/// PC-relative address.
pub open spec fn spec_sti(s: MState, inst: u16) -> MState {
    let addr = wadd(s.regs[R_PC as int], sext_spec(off9_of(inst), 9));
    let ptr = s.mem[addr as int];
    MState { mem: s.mem.update(ptr as int, s.regs[dr_of(inst) as int]), ..s }
}

/// `STR`: store the source register at base register plus sign-extended
/// 6-bit offset.
pub open spec fn spec_str(s: MState, inst: u16) -> MState {
    let addr = wadd(s.regs[sr1_of(inst) as int], sext_spec(off6_of(inst), 6));
    MState { mem: s.mem.update(addr as int, s.regs[dr_of(inst) as int]), ..s }
}

/// `BR`: if the instruction's {N, Z, P} mask covers the current condition
/// flag, the program counter moves by the sign-extended 9-bit offset;
/// otherwise nothing happens.
pub open spec fn spec_br(s: MState, inst: u16) -> MState {
    if nzp_of(inst) & s.regs[R_COND as int] != 0 {
        with_reg(s, R_PC as int, wadd(s.regs[R_PC as int], sext_spec(off9_of(inst), 9)))
    } else {
        s
    }
}

/// `JMP`: the program counter takes the base register's value.
pub open spec fn spec_jmp(s: MState, inst: u16) -> MState {
    with_reg(s, R_PC as int, s.regs[sr1_of(inst) as int])
}

/// `JSR`: R7 takes the already-advanced program counter; then the program
/// counter takes either the PC-relative target (mode bit set) or the base
/// register's value, the base register being read after the R7 write.
pub open spec fn spec_jsr(s: MState, inst: u16) -> MState {
    let saved = s.regs[R_PC as int];
    let linked = s.regs.update(7, saved);
    let target = if jsr_flag_of(inst) == 1 {
        wadd(saved, sext_spec(off11_of(inst), 11))
    } else {
        linked[sr1_of(inst) as int]
    };
    MState { regs: linked.update(R_PC as int, target), ..s }
}

/// The output bytes of a `PUTS` trap: the low bytes of the words starting
/// at `a`, up to the first zero word; `None` when no zero word exists at or
/// beyond `a`, in which case the trap cannot complete.
pub open spec fn puts_bytes(mem: Seq<u16>, a: int) -> Option<Seq<u8>>
    decreases MEMORY_MAX - a,
{
    if a < 0 || a >= MEMORY_MAX {
        None
    } else if mem[a] == 0 {
        Some(Seq::empty())
    } else {
        match puts_bytes(mem, a + 1) {
            None => None,
            Some(t) => Some(seq![(mem[a] & 0xFF) as u8] + t),
        }
    }
}

/// The output bytes of a `PUTSP` trap: for each word up to the first zero
/// word, its low byte, then its high byte unless that is zero; `None` when
/// no zero word exists at or beyond `a`.
pub open spec fn putsp_bytes(mem: Seq<u16>, a: int) -> Option<Seq<u8>>
    decreases MEMORY_MAX - a,
{
    if a < 0 || a >= MEMORY_MAX {
        None
    } else if mem[a] == 0 {
        Some(Seq::empty())
    } else {
        match putsp_bytes(mem, a + 1) {
            None => None,
            Some(t) => Some(putsp_chunk(mem[a]) + t),
        }
    }
}

/// The one or two bytes a single non-zero word contributes to `PUTSP`
/// output: its low byte, then its high byte unless that is zero.
pub open spec fn putsp_chunk(w: u16) -> Seq<u8> {
    if (w >> 8) as u8 == 0 {
        seq![(w & 0xFF) as u8]
    } else {
        seq![(w & 0xFF) as u8, (w >> 8) as u8]
    }
}

/// The low bytes of `mem[start..a]`: what a `PUTS` scan has gathered after
/// covering that range.
pub open spec fn puts_prefix(mem: Seq<u16>, start: int, a: int) -> Seq<u8> {
    Seq::new((a - start) as nat, |i: int| (mem[start + i] & 0xFF) as u8)
}

/// The packed bytes of `mem[start..a]`: what a `PUTSP` scan has gathered
/// after covering that range.
pub open spec fn putsp_prefix(mem: Seq<u16>, start: int, a: int) -> Seq<u8>
    decreases a - start,
{
    if a <= start {
        Seq::empty()
    } else {
        putsp_prefix(mem, start, a - 1) + putsp_chunk(mem[a - 1])
    }
}

/// A scan that found no zero word in `mem[start..a]` pins down
/// `puts_bytes`: reaching the end of memory means the string is
/// unterminated, and stopping on a zero word means the output is exactly
/// the gathered prefix.
pub proof fn lemma_puts_scan(mem: Seq<u16>, start: int, a: int)
    requires
        mem.len() == MEMORY_MAX,
        0 <= start <= a <= MEMORY_MAX,
        forall|j: int| start <= j < a ==> mem[j] != 0,
    ensures
        a == MEMORY_MAX ==> puts_bytes(mem, start) is None,
        a < MEMORY_MAX && mem[a] == 0 ==> puts_bytes(mem, start) == Some(
            puts_prefix(mem, start, a),
        ),
    decreases a - start,
{
    if start == a {
        if a < MEMORY_MAX && mem[a] == 0 {
            assert(puts_prefix(mem, start, a) =~= Seq::<u8>::empty());
        }
    } else {
        lemma_puts_scan(mem, start + 1, a);
        if a < MEMORY_MAX && mem[a] == 0 {
            assert(puts_prefix(mem, start, a) =~= seq![(mem[start] & 0xFF) as u8] + puts_prefix(
                mem,
                start + 1,
                a,
            ));
        }
    }
}

/// Peeling `putsp_prefix` from the front instead of the back.
pub proof fn lemma_putsp_prefix_front(mem: Seq<u16>, start: int, a: int)
    requires
        start < a,
    ensures
        putsp_prefix(mem, start, a) == putsp_chunk(mem[start]) + putsp_prefix(mem, start + 1, a),
    decreases a - start,
{
    if start + 1 == a {
        reveal_with_fuel(putsp_prefix, 2);
        assert(putsp_prefix(mem, start, a) =~= putsp_chunk(mem[start]) + putsp_prefix(
            mem,
            start + 1,
            a,
        ));
    } else {
        lemma_putsp_prefix_front(mem, start, a - 1);
        assert(putsp_prefix(mem, start, a) =~= putsp_chunk(mem[start]) + putsp_prefix(
            mem,
            start + 1,
            a,
        ));
    }
}

/// The `PUTSP` analogue of `lemma_puts_scan`.
pub proof fn lemma_putsp_scan(mem: Seq<u16>, start: int, a: int)
    requires
        mem.len() == MEMORY_MAX,
        0 <= start <= a <= MEMORY_MAX,
        forall|j: int| start <= j < a ==> mem[j] != 0,
    ensures
        a == MEMORY_MAX ==> putsp_bytes(mem, start) is None,
        a < MEMORY_MAX && mem[a] == 0 ==> putsp_bytes(mem, start) == Some(
            putsp_prefix(mem, start, a),
        ),
    decreases a - start,
{
    if start == a {
    } else {
        lemma_putsp_scan(mem, start + 1, a);
        if a < MEMORY_MAX && mem[a] == 0 {
            lemma_putsp_prefix_front(mem, start, a);
        }
    }
}

/// The prompt a `TRAP IN` writes before reading.
pub open spec fn prompt_bytes() -> Seq<u8> {
    seq![0x3Eu8, 0x20u8]
}

/// `TRAP`: the six input/output primitives, selected by the 8-bit vector.
/// A failing input primitive leaves the state exactly as it was; an unknown
/// vector is an invalid-opcode error.
pub open spec fn spec_trap(s: MState, inst: u16) -> (MState, StepResult) {
    let v = trapvect_of(inst);
    if v == TRAP_GETC {
        if s.input.len() == 0 {
            (s, StepResult::Error(VmError::IOFailure))
        } else {
            (
                MState {
                    regs: s.regs.update(0, s.input[0] as u16),
                    input: s.input.skip(1),
                    ..s
                },
                StepResult::Continue,
            )
        }
    } else if v == TRAP_OUT {
        (
            MState { output: s.output.push((s.regs[0] & 0xFF) as u8), ..s },
            StepResult::Continue,
        )
    } else if v == TRAP_PUTS {
        match puts_bytes(s.mem, s.regs[0] as int) {
            None => (s, StepResult::Error(VmError::IOFailure)),
            Some(bs) => (MState { output: s.output + bs, ..s }, StepResult::Continue),
        }
    } else if v == TRAP_IN {
        if s.input.len() == 0 {
            (s, StepResult::Error(VmError::IOFailure))
        } else {
            (
                MState {
                    regs: s.regs.update(0, s.input[0] as u16),
                    input: s.input.skip(1),
                    output: s.output + prompt_bytes() + seq![s.input[0]],
                    ..s
                },
                StepResult::Continue,
            )
        }
    } else if v == TRAP_PUTSP {
        match putsp_bytes(s.mem, s.regs[0] as int) {
            None => (s, StepResult::Error(VmError::IOFailure)),
            Some(bs) => (MState { output: s.output + bs, ..s }, StepResult::Continue),
        }
    } else if v == TRAP_HALT {
        (s, StepResult::Halted)
    } else {
        (s, StepResult::Error(VmError::InvalidOpcode))
    }
}

/// Dispatch of a fetched instruction in the post-fetch state `s` (program
/// counter already advanced). Reserved opcodes fail without any write.
pub open spec fn spec_exec(s: MState, inst: u16) -> (MState, StepResult) {
    match opcode_spec(op_of(inst)) {
        Some(OPCode::Br) => (spec_br(s, inst), StepResult::Continue),
        Some(OPCode::Add) => (spec_add(s, inst), StepResult::Continue),
        Some(OPCode::Ld) => (spec_ld(s, inst), StepResult::Continue),
        Some(OPCode::St) => (spec_st(s, inst), StepResult::Continue),
        Some(OPCode::Jsr) => (spec_jsr(s, inst), StepResult::Continue),
        Some(OPCode::And) => (spec_and(s, inst), StepResult::Continue),
        Some(OPCode::Ldr) => (spec_ldr(s, inst), StepResult::Continue),
        Some(OPCode::Str) => (spec_str(s, inst), StepResult::Continue),
        Some(OPCode::Rti) => (s, StepResult::Error(VmError::InvalidOpcode)),
        Some(OPCode::Not) => (spec_not(s, inst), StepResult::Continue),
        Some(OPCode::Ldi) => (spec_ldi(s, inst), StepResult::Continue),
        Some(OPCode::Sti) => (spec_sti(s, inst), StepResult::Continue),
        Some(OPCode::Jmp) => (spec_jmp(s, inst), StepResult::Continue),
        Some(OPCode::Res) => (s, StepResult::Error(VmError::InvalidOpcode)),
        Some(OPCode::Lea) => (spec_lea(s, inst), StepResult::Continue),
        Some(OPCode::Trap) => spec_trap(s, inst),
        None => (s, StepResult::Error(VmError::InvalidOpcode)),
    }
}

/// One full machine step: fetch the word at the program counter, advance
/// the program counter by one, then execute the fetched instruction.
pub open spec fn spec_step(s: MState) -> (MState, StepResult) {
    let pc = s.regs[R_PC as int];
    let inst = s.mem[pc as int];
    spec_exec(MState { regs: s.regs.update(R_PC as int, wadd(pc, 1)), ..s }, inst)
}

/// `n` consecutive machine steps lead from `s` to `t`, each of them with
/// outcome `Continue`.
pub open spec fn reaches(s: MState, t: MState, n: nat) -> bool
    decreases n,
{
    if n == 0 {
        t == s
    } else {
        exists|m: MState|
            reaches(s, m, (n - 1) as nat) && spec_step(m).1 == StepResult::Continue
                && spec_step(m).0 == t
    }
}

} // verus!
