//! The hardware timer the kernel counts time with: the HPET where the
//! firmware describes one, the PIT otherwise.

use vstd::prelude::*;
use super::hpet::Hpet;
use super::pit::Pit;

verus! {

pub enum HardwareTimer {
    Hpet(Hpet),
    Pit(Pit),
}

impl HardwareTimer {
    pub fn name(&self) -> (r: &'static str)
        ensures
            self is Hpet ==> r@ == "HPET"@,
            self is Pit ==> r@ == "PIT"@,
    {
        match self {
            HardwareTimer::Hpet(t) => t.name(),
            HardwareTimer::Pit(t) => t.name(),
        }
    }

    pub fn granularity(&self) -> (r: u64)
        ensures
            r >= 1,
            self matches HardwareTimer::Pit(_) ==> r == 838,
            self matches HardwareTimer::Hpet(h) ==> r == if (h.general_capabilities_id >> 32u64) / 1_000_000 == 0 {
                1
            } else {
                (h.general_capabilities_id >> 32u64) / 1_000_000
            },
    {
        match self {
            HardwareTimer::Hpet(t) => t.granularity(),
            HardwareTimer::Pit(t) => t.granularity(),
        }
    }

    pub fn require_calibration(&self) -> (r: bool)
        ensures
            !r,
    {
        match self {
            HardwareTimer::Hpet(t) => t.require_calibration(),
            HardwareTimer::Pit(t) => t.require_calibration(),
        }
    }

    pub fn rating(&self) -> (r: u64)
        ensures
            self is Hpet ==> r == 50,
            self is Pit ==> r == 40,
    {
        match self {
            HardwareTimer::Hpet(t) => t.rating(),
            HardwareTimer::Pit(t) => t.rating(),
        }
    }
}

} // verus!
