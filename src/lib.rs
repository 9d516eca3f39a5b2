//! An interpreter for a small 8-bit virtual machine: 4 KiB of memory, sixteen
//! byte registers, a sixteen-entry call stack, two countdown timers, a
//! sixteen-key keypad and a 64 x 32 monochrome display.

mod error;
pub mod instruction;
pub mod model;
mod pixels;
pub mod laws;
mod machine;

pub use error::Chip8Error;
pub use instruction::{decode, Instruction};
pub use machine::Chip8;
pub use model::{SCREEN_HEIGHT, SCREEN_WIDTH};
