//! A virtual CPU for the classic 35-instruction, 8-bit virtual console:
//! opcode decoding, instruction execution over a small machine state, and
//! the 60 Hz countdown timers. Every function is verified against a
//! mathematical model of the machine.
//!
//! - `common`: reading and replacing bits, nibbles and bytes of a word.
//! - `memory`, `stack`, `framebuffer`: the parts of the machine.
//! - `ast::decoder`: the instruction set and the decoder.
//! - `model`: the machine as a mathematical value, and what each
//!   instruction does to it.
//! - `engine`: the instructions executed on the state.
//! - `state`: the state, the fetch-decode-execute step and the timer tick.
//! - `task`: the execution task as a state machine.
//! - `timer`: the countdown of one timer.
//! - `invariants`: what holds across instructions.
pub mod ast;
pub mod common;
pub mod engine;
pub mod fault;
pub mod framebuffer;
pub mod invariants;
pub mod memory;
pub mod model;
pub mod stack;
pub mod state;
pub mod task;
pub mod timer;
