//! Model-specific register numbers.

use vstd::prelude::*;

verus! {

pub const APIC_BASE: u32 = 0x1b;
pub const EFER: u32 = 0xc0000080;

} // verus!
