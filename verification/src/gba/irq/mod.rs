//! Interrupts.

pub mod source;
