//! Execution core of a CHIP-8 / Super-CHIP virtual machine: a packed
//! monochrome framebuffer and an interpreter over the fixed opcode set.
pub mod display;
pub mod machine;

pub use machine::{get_opcode, Chip8, Chip8State, Fault, KeyRequest, Status, TickInput};
