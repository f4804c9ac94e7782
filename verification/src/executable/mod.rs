//! Executable file formats.

pub mod elf;
