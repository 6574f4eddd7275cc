//! The instruction-set architecture: opcode tags, condition flags, trap
//! vectors, error kinds, and the bit fields of an instruction word.
//!
//! Every instruction is a 16-bit word whose top 4 bits select the opcode;
//! the remaining bits are operand fields whose layout depends on the opcode.

use vstd::prelude::*;

verus! {

/// Number of memory cells: the machine is word-addressable with 16-bit
/// addresses, so exactly 2^16 cells exist.
pub const MEMORY_MAX: usize = 65536;

/// Number of register-file slots: R0..R7, then the program counter, then
/// the condition register.
pub const NUM_REGS: usize = 10;

/// Register-file index of the program counter.
pub const R_PC: usize = 8;

/// Register-file index of the condition register.
pub const R_COND: usize = 9;

/// Condition flag: the last data value written was strictly positive.
pub const FL_POS: u16 = 1;

/// Condition flag: the last data value written was zero.
pub const FL_ZRO: u16 = 2;

/// Condition flag: the last data value written had bit 15 set.
pub const FL_NEG: u16 = 4;

/// Trap vector: read one input byte into R0, without echo.
pub const TRAP_GETC: u16 = 0x20;

/// Trap vector: write the low byte of R0 to the output sink.
pub const TRAP_OUT: u16 = 0x21;

/// Trap vector: write the null-terminated string at address R0, one
/// character per word.
pub const TRAP_PUTS: u16 = 0x22;

/// Trap vector: prompted read of one input byte into R0, with echo.
pub const TRAP_IN: u16 = 0x23;

/// Trap vector: write the null-terminated string at address R0, packed two
/// characters per word, low byte first.
pub const TRAP_PUTSP: u16 = 0x24;

/// Trap vector: stop the fetch-decode-execute loop.
pub const TRAP_HALT: u16 = 0x25;

/// The sixteen opcode tags, in the order of their 4-bit encodings starting
/// at zero. `Res` and `Rti` are reserved: they decode, but dispatching them
/// is an error.
#[derive(Copy, Clone, Debug, PartialEq, Eq, Structural)]
pub enum OPCode {
    Br,
    Add,
    Ld,
    St,
    Jsr,
    And,
    Ldr,
    Str,
    Rti,
    Not,
    Ldi,
    Sti,
    Jmp,
    Res,
    Lea,
    Trap,
}

/// The ways a step can fail fatally.
#[derive(Copy, Clone, Debug, PartialEq, Eq, Structural)]
pub enum VmError {
    /// A memory address at or beyond `MEMORY_MAX` was used.
    OutOfBounds,
    /// A reserved opcode, or an unknown trap vector, was dispatched.
    InvalidOpcode,
    /// A trap input primitive could not complete.
    IOFailure,
}

/// Outcome of executing one instruction.
#[derive(Copy, Clone, Debug, PartialEq, Eq, Structural)]
pub enum StepResult {
    /// The instruction completed and the machine can keep going.
    Continue,
    /// A halt trap executed.
    Halted,
    /// The step failed; the caller must stop stepping.
    Error(VmError),
}

/// The opcode tag a 4-bit value decodes to, `None` beyond 15.
pub open spec fn opcode_spec(op: u16) -> Option<OPCode> {
    if op == 0 {
        Some(OPCode::Br)
    } else if op == 1 {
        Some(OPCode::Add)
    } else if op == 2 {
        Some(OPCode::Ld)
    } else if op == 3 {
        Some(OPCode::St)
    } else if op == 4 {
        Some(OPCode::Jsr)
    } else if op == 5 {
        Some(OPCode::And)
    } else if op == 6 {
        Some(OPCode::Ldr)
    } else if op == 7 {
        Some(OPCode::Str)
    } else if op == 8 {
        Some(OPCode::Rti)
    } else if op == 9 {
        Some(OPCode::Not)
    } else if op == 10 {
        Some(OPCode::Ldi)
    } else if op == 11 {
        Some(OPCode::Sti)
    } else if op == 12 {
        Some(OPCode::Jmp)
    } else if op == 13 {
        Some(OPCode::Res)
    } else if op == 14 {
        Some(OPCode::Lea)
    } else if op == 15 {
        Some(OPCode::Trap)
    } else {
        None
    }
}

impl OPCode {
    /// Total decode of a 4-bit opcode value: every value 0..=15 maps to its
    /// named tag, anything larger to `None`.
    pub fn get(op: u16) -> (r: Option<OPCode>)
        ensures
            r == opcode_spec(op),
            r is Some <==> op <= 15,
    {
        match op {
            0 => Some(OPCode::Br),
            1 => Some(OPCode::Add),
            2 => Some(OPCode::Ld),
            3 => Some(OPCode::St),
            4 => Some(OPCode::Jsr),
            5 => Some(OPCode::And),
            6 => Some(OPCode::Ldr),
            7 => Some(OPCode::Str),
            8 => Some(OPCode::Rti),
            9 => Some(OPCode::Not),
            10 => Some(OPCode::Ldi),
            11 => Some(OPCode::Sti),
            12 => Some(OPCode::Jmp),
            13 => Some(OPCode::Res),
            14 => Some(OPCode::Lea),
            15 => Some(OPCode::Trap),
            _ => None,
        }
    }
}

/// The opcode field: the top 4 bits of an instruction word.
pub open spec fn op_of(w: u16) -> u16 {
    w >> 12
}

/// The destination- or source-register field in bits 9..=11; for `BR` these
/// same bits are the {N, Z, P} mask.
pub open spec fn dr_of(w: u16) -> u16 {
    (w >> 9) & 7
}

/// The condition mask of a `BR` instruction: bit 11 is N, bit 10 is Z,
/// bit 9 is P, matching `FL_NEG`, `FL_ZRO`, `FL_POS`.
pub open spec fn nzp_of(w: u16) -> u16 {
    (w >> 9) & 7
}

/// The first source-register field, in bits 6..=8; also the base register
/// of `LDR`, `STR`, `JMP` and register-form `JSR`.
pub open spec fn sr1_of(w: u16) -> u16 {
    (w >> 6) & 7
}

/// The second source-register field, in bits 0..=2.
pub open spec fn sr2_of(w: u16) -> u16 {
    w & 7
}

/// The immediate-mode bit of `ADD` and `AND`.
pub open spec fn imm_flag_of(w: u16) -> u16 {
    (w >> 5) & 1
}

/// The 5-bit immediate field of `ADD` and `AND`.
pub open spec fn imm5_of(w: u16) -> u16 {
    w & 0x1F
}

/// The 6-bit offset field of `LDR` and `STR`.
pub open spec fn off6_of(w: u16) -> u16 {
    w & 0x3F
}

/// The 9-bit PC-relative offset field.
pub open spec fn off9_of(w: u16) -> u16 {
    w & 0x1FF
}

/// The 11-bit offset field of PC-relative `JSR`.
pub open spec fn off11_of(w: u16) -> u16 {
    w & 0x7FF
}

/// The addressing-mode bit of `JSR`: set for PC-relative, clear for the
/// base-register form.
pub open spec fn jsr_flag_of(w: u16) -> u16 {
    (w >> 11) & 1
}

/// The 8-bit trap vector field.
pub open spec fn trapvect_of(w: u16) -> u16 {
    w & 0xFF
}

/// Ranges of all instruction fields, for any word.
pub proof fn lemma_field_ranges(w: u16)
    ensures
        op_of(w) <= 15,
        dr_of(w) <= 7,
        nzp_of(w) <= 7,
        sr1_of(w) <= 7,
        sr2_of(w) <= 7,
        imm_flag_of(w) <= 1,
        imm5_of(w) <= 0x1F,
        off6_of(w) <= 0x3F,
        off9_of(w) <= 0x1FF,
        off11_of(w) <= 0x7FF,
        jsr_flag_of(w) <= 1,
        trapvect_of(w) <= 0xFF,
        (w & 0xFF) <= 0xFF,
        (w >> 8) <= 0xFF,
{
    assert(
        (w >> 12) <= 15
        && ((w >> 9) & 7) <= 7
        && ((w >> 6) & 7) <= 7
        && (w & 7) <= 7
        && ((w >> 5) & 1) <= 1
        && (w & 0x1F) <= 0x1F
        && (w & 0x3F) <= 0x3F
        && (w & 0x1FF) <= 0x1FF
        && (w & 0x7FF) <= 0x7FF
        && ((w >> 11) & 1) <= 1
        && (w & 0xFF) <= 0xFF
        && (w >> 8) <= 0xFF
    ) by (bit_vector);
}

} // verus!
