//! A small fixed-instruction-set 8-bit virtual machine: sixteen byte
//! registers, a 16-bit address register, 4KB of memory, a bounded call
//! stack, two real-time-decaying timers, a 64x32 monochrome framebuffer
//! and a 16-key input panel.
//!
//! The instruction decoder, the execution engine, the sprite-blit
//! algorithm, the key-wait state machine and the timer decay are all
//! verified against functional specifications.

pub mod cpu;
pub mod decode;
pub mod display;
pub mod laws;
pub mod ops;
pub mod rom;
pub mod system;
