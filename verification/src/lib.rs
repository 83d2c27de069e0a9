//! An interpreter core for the CHIP-8 virtual machine: the instruction
//! decoder and the execution engine, with their behaviour stated as
//! contracts over a mathematical model of the machine.
//!
//! - [`isa`]: the instruction set and the decoder.
//! - [`state`]: the model of the machine and the meaning of each
//!   instruction.
//! - [`cpu`]: memory, the machine itself and the fetch-decode-execute cycle.
//! - [`fault`]: the conditions that halt the machine.
//! - [`laws`]: laws of the instruction semantics.

pub mod cpu;
pub mod fault;
pub mod isa;
pub mod laws;
pub mod state;
