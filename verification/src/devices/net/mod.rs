//! Network devices.

pub mod e1000;

use vstd::prelude::*;

verus! {

/// A hardware (MAC) address.
#[derive(Debug, Clone, Copy, PartialEq, Eq)]
pub struct MacAddress(pub [u8; 6]);

impl MacAddress {
    pub fn new(bytes: [u8; 6]) -> (r: Self)
        ensures
            r.0 == bytes,
    {
        MacAddress(bytes)
    }

    pub fn bytes(&self) -> (r: &[u8; 6])
        ensures
            *r == self.0,
    {
        &self.0
    }
}

} // verus!
