//! The core of VIPL, a small dynamically-compiled stack language: the
//! bytecode instruction set, the abstract-interpretation type checker over
//! it, and the virtual machine that executes it.
//!
//! - `types`, `value`, `opcode`: the data-type tags, runtime values, heap
//!   objects and instructions, each with its mathematical model.
//! - `vm`: function records, the canonical signature encoding, the registry.
//! - `checker`: the abstract interpreter that shadows the operand stack with
//!   tags and decides whether a stream is well typed.
//! - `semantics`: the small-step semantics of the machine.
//! - `interp`: the executable interpreter, proved to follow the semantics
//!   step for step; all floating-point computation is handed to the host.
//! - `stdlib`: the standard-library natives a machine is booted with.
//! - `laws`: the stated general properties, among them soundness of the
//!   checker on the straight-line fragment.
#![allow(non_snake_case)]

pub mod types;
pub mod value;
pub mod vm;
pub mod opcode;
pub mod checker;
pub mod semantics;
pub mod interp;
pub mod stdlib;
pub mod laws;
pub mod float_bits;
