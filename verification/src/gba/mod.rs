//! The 32-bit handheld: one core, four timers, and memory of very uneven speed.

pub mod irq;
pub mod memory;
pub mod timers;
pub mod video;
pub mod waitstates;
