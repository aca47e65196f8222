//! Core of a small x86 kernel: console driver, colour attributes, key
//! dispatch, interrupt vector numbering and the test runner, with their
//! contracts.

pub mod clock;
pub mod colour;
pub mod interrupts;
pub mod keyboard;
pub mod qemu;
pub mod testing;
pub mod vga;
