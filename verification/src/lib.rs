pub mod cpu;
pub mod error;
pub mod memory;
pub mod display;
pub mod keyboard;
pub mod opcode;
pub mod semantics;
pub mod instruction;
pub mod execution;
