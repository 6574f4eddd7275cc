//! Word arithmetic and sign extension.
//!
//! Registers and memory cells are 16 bits wide; all address arithmetic is
//! carried out modulo 2^16. Instruction operands are stored in narrow
//! two's-complement fields and are widened to 16 bits by [`sext`] before use.

use vstd::prelude::*;

verus! {

/// Addition modulo 2^16: the value of `x + y` wrapped to the word width.
pub open spec fn wadd(x: u16, y: u16) -> u16 {
    if x + y > 0xFFFF {
        (x + y - 0x10000) as u16
    } else {
        (x + y) as u16
    }
}

/// Wrapping 16-bit addition, used for the program counter and for every
/// effective-address computation.
pub fn word_add(x: u16, y: u16) -> (r: u16)
    ensures
        r == wadd(x, y),
{
    x.wrapping_add(y)
}

/// Sign extension of the low `n` bits of `x`, taken as a two's-complement
/// field, to the full 16-bit word: if bit `n - 1` is set, all bits from `n`
/// upward are set in the result; otherwise `x` is returned unchanged.
pub open spec fn sext_spec(x: u16, n: u16) -> u16
    recommends
        1 <= n <= 15,
{
    if (x >> ((n - 1) as u16)) & 1 == 1 {
        x | (0xFFFFu16 << n)
    } else {
        x
    }
}

/// Widens the `bit_count`-bit two's-complement field `x` to a 16-bit word,
/// preserving its sign. Callers use widths 5 (ADD/AND immediates), 6
/// (LDR/STR offsets), 9 (PC-relative offsets) and 11 (JSR offsets).
pub fn sext(x: u16, bit_count: usize) -> (r: u16)
    requires
        1 <= bit_count <= 15,
    ensures
        r == sext_spec(x, bit_count as u16),
{
    let n: u16 = bit_count as u16;
    if ((x >> ((n - 1) as u16)) & 1) == 1 {
        x | (0xFFFFu16 << n)
    } else {
        x
    }
}

/// Law: sign extension preserves the two's-complement value of the field.
/// For an `n`-bit field `x`, a non-negative field (top bit clear) is
/// returned unchanged, and a negative field (top bit set, standing for
/// `x - 2^n`) is returned as the 16-bit representative of that same
/// negative value, namely `x - 2^n + 2^16`.
pub proof fn lemma_sext_preserves_value(x: u16, n: u16)
    requires
        1 <= n <= 15,
        x < (1u16 << n),
    ensures
        x < (1u16 << ((n - 1) as u16)) ==> sext_spec(x, n) == x,
        x >= (1u16 << ((n - 1) as u16)) ==> sext_spec(x, n) == x + 0x10000 - (1u16 << n),
{
    assert(
        (x < (1u16 << ((n - 1) as u16)) ==> ((x >> ((n - 1) as u16)) & 1) != 1)
        && (x >= (1u16 << ((n - 1) as u16)) ==> ((x >> ((n - 1) as u16)) & 1) == 1
            && (x | (0xFFFFu16 << n)) == x + 0x10000 - (1u16 << n))
    ) by (bit_vector)
        requires
            1 <= n <= 15,
            x < (1u16 << n),
    ;
}

} // verus!
