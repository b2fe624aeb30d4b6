//! A verified interpreter for a small fixed instruction set: a byte-addressable
//! virtual machine with sixteen general registers, a twelve-bit index register,
//! a call stack, a monochrome bitmap display, two countdown timers, and a
//! sixteen-key input latch.

pub mod cpu;
pub mod grid;
pub mod laws;
pub mod model;

pub use cpu::{CPU, PIXEL_ON};
pub use model::{StepError, StepOutcome, MEM_SIZE, PROG_START, SCREEN_CELLS, SCREEN_H, SCREEN_W};
