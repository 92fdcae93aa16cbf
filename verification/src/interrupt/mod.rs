//! Interrupt vector numbers.
pub mod interrupts;
