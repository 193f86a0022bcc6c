//! A verified CHIP-8 virtual machine: a fetch/decode/execute core over a flat
//! 4096-byte memory, sixteen 8-bit registers, a call stack, two countdown
//! timers, a 16-key keyboard and a 64x32 monochrome XOR framebuffer.

pub mod cpu;
pub mod display;
pub mod font;
pub mod instr;
pub mod properties;
mod rng;
pub mod state;
