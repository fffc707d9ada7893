//! An interpreter for the classic 8-bit fantasy computer: memory, registers,
//! call stack, timers and a 64x32 monochrome display, advanced one
//! instruction at a time.

pub mod cpu;
pub mod font;
pub mod model;

pub mod laws;
