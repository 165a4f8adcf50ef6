//! Verified building blocks of three handheld consoles.
//!
//! Each console has a module of its own; what they share stands beside them.

pub mod arith;
pub mod arrays;
pub mod bits;
pub mod color;
pub mod fault;
pub mod gba;
pub mod gbc;
pub mod nds;
pub mod state;
pub mod text;

