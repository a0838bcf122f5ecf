//! Memory-mapped peripherals state.

pub mod interrupts;
