//! A CHIP-8 virtual machine: the instruction interpreter together with the
//! two peripherals it drives, a 64x32 monochrome framebuffer and a 16-key
//! keypad.
//!
//! Every executable function carries a contract stated over a mathematical
//! model of the machine, and Verus proves the body against it.

pub mod cpu;
pub mod display;
pub mod emulator;
pub mod keypad;
pub mod machine;
mod random;
pub mod theorems;

pub use emulator::EmulatorError;
