//! A CHIP-8 virtual machine: memory, registers, call stack, timers and a
//! monochrome frame buffer, driven one instruction per cycle.

pub mod bits;
pub mod cpu;
pub mod display;
pub mod driver;
mod fields;
pub mod laws;
pub mod machine;
mod ops;
mod random;
pub mod screen;
pub mod semantics;
pub mod sprite;

pub use bits::make_bitvector;
pub use display::{frame_rgb, Color};
pub use driver::{Command, Turn};
pub use machine::{Chip8, Chip8Error, MachineState};
