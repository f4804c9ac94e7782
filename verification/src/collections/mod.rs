//! Collections.

pub mod ring;
