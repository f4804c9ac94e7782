//! Bits of the first byte of a movement packet.

use vstd::prelude::*;

verus! {

pub const Y_OVERFLOW: u8 = 0x80;
pub const X_OVERFLOW: u8 = 0x40;
pub const Y_SIGN: u8 = 0x20;
pub const X_SIGN: u8 = 0x10;

} // verus!
