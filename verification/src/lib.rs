//! A CHIP-8 interpreter.
//!
//! The machine is a fixed 16-bit instruction set over 4096 bytes of memory,
//! sixteen 8-bit registers, a call stack, two countdown timers, a 64 x 32
//! monochrome display and a 16-key pad. Every operation carries a contract
//! over a mathematical model of the machine, and Verus proves that the
//! executable code meets it.

pub mod cpu;
pub mod instruction;
pub mod keypad;
pub mod screen;
