//! Bits of the RFLAGS register.

use vstd::prelude::*;

verus! {

/// Interrupts enabled.
pub const IF: u64 = 0x200;

} // verus!
