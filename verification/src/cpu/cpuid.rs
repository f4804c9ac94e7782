//! CPUID function numbers and feature bits.

use vstd::prelude::*;

verus! {

/// The function that reports the processor's features.
pub const FN_FEAT: u32 = 1;

/// Time stamp counter present (EDX of `FN_FEAT`).
pub const FEAT_EDX_TSC: u32 = 0x10;
/// Local APIC present (EDX of `FN_FEAT`).
pub const FEAT_EDX_APIC: u32 = 0x200;

} // verus!
