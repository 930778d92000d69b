//! A verified stack-oriented bytecode virtual machine.
//!
//! The machine executes a fixed, 0-indexed sequence of typed instructions
//! against a last-in-first-out operand stack. Values are 32-bit integers or
//! 32-bit floats; jumps and conditional branches resolve named labels through
//! a table built once before the run. Every stack effect, type check, label
//! resolution and program-counter transition is verified; the host supplies
//! console input and output and all floating-point computation through a
//! request/reply protocol, so a float is carried here only as its bit
//! pattern.

pub mod engine;
pub mod instr;
pub mod laws;
pub mod numtext;
pub mod value;
