//! Resolutions, in pixels per millimetre.

use vstd::prelude::*;

verus! {

pub const PIXEL_PER_MM_1: u8 = 0;
pub const PIXEL_PER_MM_2: u8 = 1;
pub const PIXEL_PER_MM_4: u8 = 2;
pub const PIXEL_PER_MM_8: u8 = 3;

} // verus!
