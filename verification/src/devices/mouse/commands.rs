//! Mouse commands; each is sent after the `MOUSE_PREFIX` controller command.

use vstd::prelude::*;

verus! {

pub const MOUSE_PREFIX: u8 = 0xD4;

pub const MOUSE_RESET: u8 = 0xFF;
pub const MOUSE_ENABLE_STREAMING: u8 = 0xF4;
pub const MOUSE_DISABLE_STREAMING: u8 = 0xF5;
pub const MOUSE_SET_DEFAULTS: u8 = 0xF6;
pub const MOUSE_SET_SAMPLE_RATE: u8 = 0xF3;
pub const MOUSE_GET_DEVICE_ID: u8 = 0xF2;
pub const MOUSE_REQUEST_SINGLE_PACKET: u8 = 0xEB;
pub const MOUSE_STATUS_REQUEST: u8 = 0xE9;

} // verus!
