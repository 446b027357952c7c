//! A cycle-stepped interpreter for a 64-bit MIPS Release 6 instruction set:
//! several cores sharing one byte-addressed physical memory, each core seeing
//! it through a base/limit translation window.
pub mod computer;
