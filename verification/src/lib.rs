//! Verified core logic of a small x86-64 kernel: ACPI AML parsing,
//! firmware table decoding, command-line parsing, clocks and device
//! register encodings.

pub mod bits;
pub mod bytes;
pub mod text;
pub mod acpi;
pub mod executable;
pub mod devices;
pub mod collections;
pub mod cpu;
pub mod cmdline;
