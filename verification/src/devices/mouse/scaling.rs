//! Sample rates, in samples per second.

use vstd::prelude::*;

verus! {

pub const PER_SEC_10: u8 = 10;
pub const PER_SEC_20: u8 = 20;
pub const PER_SEC_40: u8 = 40;
pub const PER_SEC_60: u8 = 60;
pub const PER_SEC_80: u8 = 80;
pub const PER_SEC_100: u8 = 100;
pub const PER_SEC_200: u8 = 200;

} // verus!
