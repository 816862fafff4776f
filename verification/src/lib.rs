//! An interpreter core for the classic CHIP-8 fantasy console.
//!
//! The crate is split in two: a stateless decoder that maps a 16-bit
//! instruction word to a symbolic operation (`cpu::instruction`), and an
//! execution engine (`cpu::CPU`) that owns all machine state and applies
//! one decoded operation per cycle.

pub mod cpu;
