//! A CHIP-8 virtual machine, verified.
//!
//! The machine has 4096 bytes of memory, sixteen 8-bit registers, an index
//! register, a call stack of sixteen return addresses, two timers, a
//! keypad of sixteen keys and a monochrome display of 64 by 32 pixels that
//! lies in the last 256 bytes of memory.
//!
//! - [`model`] holds the plain values the contracts speak of: the decoded
//!   [`model::Instruction`], the machine's [`model::State`], and what a
//!   step reports.
//! - [`decode`] turns instruction words into instructions.
//! - [`display`] draws sprites and turns the bitmap into frames.
//! - [`semantics`] says what every instruction does to a state, and what a
//!   step and a run of the machine are.
//! - [`machine`] is the machine itself, [`machine::Chip8`]: every method is
//!   proved to do to the machine what the model says.
//! - [`laws`] proves what follows for programs: flags, the stack, drawing
//!   twice, storing and loading registers, halting.
//! - [`text`], [`assembler`] and [`disasm`] read and write instructions as
//!   text.
//!
//! The one thing taken on trust is the source of random bytes for `CXNN`;
//! the machine is verified for every byte it may hand over.

pub mod model;
pub mod decode;
pub mod display;
pub mod semantics;
mod rng;
pub mod laws;
pub mod text;
pub mod assembler;
pub mod disasm;
pub mod machine;
