//! Devices: clocks, storage, network and buses.

pub mod clock;
pub mod net;
pub mod ide;
pub mod pci;
pub mod ps2;
pub mod mouse;
pub mod keyboard;
pub mod pipe;
