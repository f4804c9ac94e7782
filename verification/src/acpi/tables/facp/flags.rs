//! Bits of the power-management registers.

use vstd::prelude::*;

verus! {

// Power Management Status Register flags
pub const PM_STS_TMR: u16 = 0x0001;
pub const PM_STS_BM: u16 = 0x0010;
pub const PM_STS_GBL: u16 = 0x0020;
pub const PM_STS_PWRBTN: u16 = 0x0100;
pub const PM_STS_SLPBTN: u16 = 0x0200;
pub const PM_STS_RTC: u16 = 0x0400;
pub const PM_STS_PCIEXP_WAKE: u16 = 0x4000;
pub const PM_STS_WAK: u16 = 0x8000;

// Power Management Enable Register flags
pub const PM_EN_TMR: u16 = 0x0001;
pub const PM_EN_GBL: u16 = 0x0020;
pub const PM_EN_PWRBTN: u16 = 0x0100;
pub const PM_EN_SLPBTN: u16 = 0x0200;
pub const PM_EN_RTC: u16 = 0x0400;
pub const PM_DIS_PCIEXP_WAKE: u16 = 0x4000;

// Power Management Control Register flags
pub const PM_CTRL_SCI_EN: u16 = 0x0001;
pub const PM_CTRL_BM_RLD: u16 = 0x0002;
pub const PM_CTRL_GBL_RLS: u16 = 0x0004;
/// The sleep type field, bits 10 to 12.
pub const PM_CTRL_SLP_TYP_MASK: u16 = 0x1C00;
pub const PM_CTRL_SLP_TYP_SHIFT: u16 = 10;
pub const PM_CTRL_SLP_EN: u16 = 0x2000;

} // verus!
