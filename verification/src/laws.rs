//! Laws of the machine semantics: properties that hold of every state and
//! every instruction, proved once over the specification-level step
//! function that `VirtualMachine::step` is verified against.

use vstd::prelude::*;
use crate::bits::{sext_spec, wadd};
use crate::isa::{
    FL_NEG, FL_POS, FL_ZRO, R_COND, R_PC, StepResult, TRAP_HALT, dr_of, lemma_field_ranges,
    nzp_of, off9_of, op_of, sr1_of, trapvect_of,
};
use crate::state::{MState, flag_for, spec_step, st_wf};

verus! {

/// Every data-producing opcode — `ADD`, `AND`, `NOT`, `LD`, `LDI`, `LDR`,
/// `LEA` — leaves the condition register describing the value it wrote:
/// `FL_ZRO` when the destination holds zero, `FL_NEG` when it holds a
/// value with bit 15 set, and `FL_POS` otherwise.
pub proof fn lemma_data_writes_set_flags(s: MState, inst: u16)
    requires
        st_wf(s),
        op_of(inst) == 1 || op_of(inst) == 5 || op_of(inst) == 9 || op_of(inst) == 2 || op_of(
            inst,
        ) == 10 || op_of(inst) == 6 || op_of(inst) == 14,
        s.mem[s.regs[R_PC as int] as int] == inst,
    ensures
        ({
            let t = spec_step(s).0;
            let v = t.regs[dr_of(inst) as int];
            &&& spec_step(s).1 == StepResult::Continue
            &&& t.regs[R_COND as int] == flag_for(v)
            &&& (v == 0 ==> t.regs[R_COND as int] == FL_ZRO)
            &&& ((v >> 15) & 1 == 1 ==> t.regs[R_COND as int] == FL_NEG)
            &&& (v != 0 && (v >> 15) & 1 == 0 ==> t.regs[R_COND as int] == FL_POS)
        }),
{
    lemma_field_ranges(inst);
    let t = spec_step(s).0;
    let v = t.regs[dr_of(inst) as int];
    assert((v >> 15) & 1 == 1 <==> v >= 0x8000) by (bit_vector);
    assert((v >> 15) & 1 == 0 <==> v < 0x8000) by (bit_vector);
}

/// `BR` branches exactly when the instruction's {N, Z, P} mask covers the
/// current condition flag: the program counter then moves by the
/// sign-extended 9-bit offset from its post-fetch value, and otherwise
/// only the fetch advance happens. In particular a mask containing Z
/// branches on `FL_ZRO`, and a mask of {N, P} does not.
pub proof fn lemma_br_mask(s: MState, inst: u16)
    requires
        st_wf(s),
        op_of(inst) == 0,
        s.mem[s.regs[R_PC as int] as int] == inst,
    ensures
        spec_step(s).1 == StepResult::Continue,
        nzp_of(inst) & s.regs[R_COND as int] != 0 ==> spec_step(s).0.regs[R_PC as int] == wadd(
            wadd(s.regs[R_PC as int], 1),
            sext_spec(off9_of(inst), 9),
        ),
        nzp_of(inst) & s.regs[R_COND as int] == 0 ==> spec_step(s).0 == (MState {
            regs: s.regs.update(R_PC as int, wadd(s.regs[R_PC as int], 1)),
            ..s
        }),
        spec_step(s).0.regs[R_COND as int] == s.regs[R_COND as int],
{
    lemma_field_ranges(inst);
}

/// Round trip through memory: an `STI` that stores value `V` through the
/// indirection cell `c` (which holds the target address `A`), immediately
/// followed by an `LDI` whose effective address is that same cell, loads
/// `V` back into the destination register and flags it — provided the
/// store clobbered neither the pointer cell nor the `LDI` instruction
/// itself.
pub proof fn lemma_sti_ldi_round_trip(s: MState, sti: u16, ldi: u16, c: u16)
    requires
        st_wf(s),
        sti == s.mem[s.regs[R_PC as int] as int],
        ldi == s.mem[wadd(s.regs[R_PC as int], 1) as int],
        op_of(sti) == 11,
        op_of(ldi) == 10,
        c == wadd(wadd(s.regs[R_PC as int], 1), sext_spec(off9_of(sti), 9)),
        c == wadd(wadd(wadd(s.regs[R_PC as int], 1), 1), sext_spec(off9_of(ldi), 9)),
        s.mem[c as int] != c,
        s.mem[c as int] != wadd(s.regs[R_PC as int], 1),
    ensures
        spec_step(s).1 == StepResult::Continue,
        spec_step(spec_step(s).0).1 == StepResult::Continue,
        spec_step(spec_step(s).0).0.regs[dr_of(ldi) as int] == s.regs[dr_of(sti) as int],
        spec_step(spec_step(s).0).0.regs[R_COND as int] == flag_for(s.regs[dr_of(sti) as int]),
{
    lemma_field_ranges(sti);
    lemma_field_ranges(ldi);
}

/// A `TRAP HALT` step halts the machine and changes nothing but the fetch
/// advance of the program counter: every general-purpose register, the
/// condition register, all of memory, and both byte buffers keep exactly
/// the values they had when the halting trap executed.
pub proof fn lemma_halt_preserves_state(s: MState)
    requires
        st_wf(s),
        op_of(s.mem[s.regs[R_PC as int] as int]) == 15,
        trapvect_of(s.mem[s.regs[R_PC as int] as int]) == TRAP_HALT,
    ensures
        spec_step(s).1 == StepResult::Halted,
        spec_step(s).0 == (MState {
            regs: s.regs.update(R_PC as int, wadd(s.regs[R_PC as int], 1)),
            ..s
        }),
        forall|i: int|
            0 <= i < s.regs.len() && i != R_PC ==> spec_step(s).0.regs[i] == s.regs[i],
{
    lemma_field_ranges(s.mem[s.regs[R_PC as int] as int]);
}

/// Subroutine linkage: a `JSR` leaves in R7 the address of the instruction
/// immediately after itself, and any later state that still holds that R7
/// value and fetches a `JMP` through R7 resumes execution exactly there.
pub proof fn lemma_jsr_jmp_resume(s: MState, t: MState)
    requires
        st_wf(s),
        st_wf(t),
        op_of(s.mem[s.regs[R_PC as int] as int]) == 4,
        t.regs[7] == spec_step(s).0.regs[7],
        op_of(t.mem[t.regs[R_PC as int] as int]) == 12,
        sr1_of(t.mem[t.regs[R_PC as int] as int]) == 7,
    ensures
        spec_step(s).1 == StepResult::Continue,
        spec_step(s).0.regs[7] == wadd(s.regs[R_PC as int], 1),
        spec_step(t).1 == StepResult::Continue,
        spec_step(t).0.regs[R_PC as int] == wadd(s.regs[R_PC as int], 1),
{
    lemma_field_ranges(s.mem[s.regs[R_PC as int] as int]);
    lemma_field_ranges(t.mem[t.regs[R_PC as int] as int]);
}

} // verus!
