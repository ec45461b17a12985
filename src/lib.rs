//! An emulator of a small 8-bit machine: its instruction set and binary
//! encoding, a fetch-decode-execute engine with flags and software
//! interrupts, and a two-pass assembler whose output the decoder reads back.

pub mod assembler;
pub mod error;
pub mod instructions;
pub mod interrupts;
pub mod loader;
pub mod machine;
pub mod memory;
pub mod registers;
pub mod text;

pub use crate::assembler::{assemble, assemble_lines};
pub use crate::error::{AssembleError, MachineError};
pub use crate::instructions::{ALUOperation, Instruction, JumpCondition, JumpTarget};
pub use crate::interrupts::{halt_interrupt, HaltInterrupt, InterruptHandler};
pub use crate::loader::load_hex_text;
pub use crate::machine::{Machine, MEMORY_SIZE};
pub use crate::memory::Memory;
pub use crate::registers::{Flags, Registers};
