//! A small word-addressable, register-based virtual machine with a fixed
//! 16-bit instruction set: eight general-purpose registers, a program
//! counter, a condition-flag register, 65536 words of memory, and a
//! synchronous trap mechanism for byte-oriented input and output.
//!
//! The machine semantics is stated once, as a specification-level step
//! function over an abstract machine state, and the executable machine is
//! verified against it instruction by instruction.

pub mod bits;
pub mod isa;
pub mod laws;
pub mod machine;
pub mod state;
