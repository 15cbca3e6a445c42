//! Interpreter core for a CHIP-8 style virtual machine: memory, registers,
//! call stack, monochrome frame buffer and keypad, stepped one instruction
//! at a time.

pub mod model;
pub mod program;
pub mod display;
pub mod laws;

pub use model::{Fault, MachineState, DISPLAY_X, DISPLAY_Y, FRAME_SIZE, RAM_SIZE};
pub use program::Program;
