//! The high precision event timer: the encoding of its registers, the
//! choice of an interrupt route for its first timer, and its clock time.
//!
//! The registers live in memory-mapped I/O; the caller reads them into an
//! [`Hpet`] and writes back what its methods computed.

use vstd::prelude::*;
use super::{ClockTime, NANOS_PER_FEMTO, FEMTOS_PER_SEC};

verus! {

/// Whether bit `k` of `x` is set.
pub open spec fn bit_set(x: u32, k: int) -> bool {
    x & (1u32 << (k as u32)) != 0
}

/// The positions of the bits of `x` that are set, among the `n` lowest,
/// from the lowest up.
pub open spec fn set_bits_below(x: u32, n: int) -> Seq<u8>
    decreases n,
{
    if n <= 0 {
        Seq::empty()
    } else if bit_set(x, n - 1) {
        set_bits_below(x, n - 1).push((n - 1) as u8)
    } else {
        set_bits_below(x, n - 1)
    }
}

/// The positions of the set bits of `x`, from the lowest up.
pub open spec fn set_bits(x: u32) -> Seq<u8> {
    set_bits_below(x, 32)
}

/// The bits of `x` that are set, as positions from the lowest up.
pub fn set_bit_positions(x: u32) -> (r: Vec<u8>)
    ensures
        r@ == set_bits(x),
{
    let mut out: Vec<u8> = Vec::new();
    let mut k: u32 = 0;
    while k < 32
        invariant
            k <= 32,
            out@ == set_bits_below(x, k as int),
        decreases 32 - k,
    {
        if x & (1u32 << k) != 0 {
            out.push(k as u8);
        }
        k = k + 1;
    }
    out
}

/// The interrupt routes a timer can use: bit `k` set for route `k`.
#[derive(Clone, Copy, Debug)]
pub struct InterruptRouteCapabilityBitmap {
    pub bitmap: u32,
}

impl InterruptRouteCapabilityBitmap {
    pub fn is_set(&self, bit: u8) -> (r: bool)
        requires
            bit < 32,
        ensures
            r == bit_set(self.bitmap, bit as int),
    {
        self.bitmap & (1u32 << bit) != 0
    }

    /// The usable routes, from the lowest up.
    pub fn enabled_routes(&self) -> (r: Vec<u8>)
        ensures
            r@ == set_bits(self.bitmap),
    {
        set_bit_positions(self.bitmap)
    }
}

/// The general interrupt status register: which timers have an interrupt
/// pending.
pub struct HpetInterruptStatus {
    pub status: u32,
}

impl HpetInterruptStatus {
    /// The timers with a pending interrupt, from the lowest up.
    pub fn set_interrupts(&self) -> (r: Vec<u8>)
        ensures
            r@ == set_bits(self.status),
    {
        set_bit_positions(self.status)
    }

    /// The value to write to acknowledge the interrupt of timer `bit`.
    pub fn ack(&self, bit: u8) -> (r: u32)
        requires
            bit < 32,
        ensures
            r == 1u32 << (bit as u32),
    {
        1u32 << bit
    }
}

/// The configuration and capabilities register of one timer.
#[derive(Clone, Copy, Debug)]
pub struct HpetTimerConfig {
    pub is_interrupt_level_triggered: bool,
    pub interrupt_enabled: bool,
    pub is_periodic: bool,
    pub is_periodic_capable: bool,
    pub is_64bit_capable: bool,
    pub timer_set_value: bool,
    pub force_32bit_mode: bool,
    pub interrupt_route: u8,
    pub interrupt_via_fsb: bool,
    pub fsb_capable: bool,
    pub interrupt_route_capabilities: InterruptRouteCapabilityBitmap,
}

/// The fields of a timer's register value: bits 1 to 7, the route in bits
/// 9 to 13, bits 14 and 15, and the route capabilities in the high half.
pub open spec fn config_of(data: u64) -> HpetTimerConfig {
    HpetTimerConfig {
        is_interrupt_level_triggered: data & 0x2 != 0,
        interrupt_enabled: data & 0x4 != 0,
        is_periodic: data & 0x8 != 0,
        is_periodic_capable: data & 0x10 != 0,
        is_64bit_capable: data & 0x20 != 0,
        timer_set_value: data & 0x40 != 0,
        force_32bit_mode: data & 0x80 != 0,
        interrupt_route: ((data >> 9u64) & 0x1F) as u8,
        interrupt_via_fsb: data & 0x4000 != 0,
        fsb_capable: data & 0x8000 != 0,
        interrupt_route_capabilities: InterruptRouteCapabilityBitmap {
            bitmap: ((data >> 32u64) & 0xFFFF_FFFF) as u32,
        },
    }
}

pub open spec fn flag(b: bool, bit: u64) -> u64 {
    if b {
        bit
    } else {
        0
    }
}

/// The register value of a timer configuration.
pub open spec fn config_bits(c: HpetTimerConfig) -> u64 {
    flag(c.is_interrupt_level_triggered, 0x2) | flag(c.interrupt_enabled, 0x4) | flag(c.is_periodic, 0x8)
        | flag(c.is_periodic_capable, 0x10) | flag(c.is_64bit_capable, 0x20) | flag(c.timer_set_value, 0x40)
        | flag(c.force_32bit_mode, 0x80) | ((c.interrupt_route as u64) << 9u64) | flag(
        c.interrupt_via_fsb,
        0x4000,
    ) | flag(c.fsb_capable, 0x8000) | ((c.interrupt_route_capabilities.bitmap as u64) << 32u64)
}

/// The bits of a timer's register that the configuration holds.
pub const CONFIG_MASK: u64 = 0xFFFF_FFFF_0000_FEFE;

impl HpetTimerConfig {
    pub fn new(data: u64) -> (r: Self)
        ensures
            r == config_of(data),
    {
        Self {
            is_interrupt_level_triggered: data & 0x2 != 0,
            interrupt_enabled: data & 0x4 != 0,
            is_periodic: data & 0x8 != 0,
            is_periodic_capable: data & 0x10 != 0,
            is_64bit_capable: data & 0x20 != 0,
            timer_set_value: data & 0x40 != 0,
            force_32bit_mode: data & 0x80 != 0,
            interrupt_route: ((data >> 9u64) & 0x1F) as u8,
            interrupt_via_fsb: data & 0x4000 != 0,
            fsb_capable: data & 0x8000 != 0,
            interrupt_route_capabilities: InterruptRouteCapabilityBitmap {
                bitmap: ((data >> 32u64) & 0xFFFF_FFFF) as u32,
            },
        }
    }

    pub fn as_u64(&self) -> (r: u64)
        ensures
            r == config_bits(*self),
    {
        let level: u64 = if self.is_interrupt_level_triggered { 0x2 } else { 0 };
        let enabled: u64 = if self.interrupt_enabled { 0x4 } else { 0 };
        let periodic: u64 = if self.is_periodic { 0x8 } else { 0 };
        let periodic_capable: u64 = if self.is_periodic_capable { 0x10 } else { 0 };
        let wide_capable: u64 = if self.is_64bit_capable { 0x20 } else { 0 };
        let set_value: u64 = if self.timer_set_value { 0x40 } else { 0 };
        let force_32bit: u64 = if self.force_32bit_mode { 0x80 } else { 0 };
        let via_fsb: u64 = if self.interrupt_via_fsb { 0x4000 } else { 0 };
        let fsb_capable: u64 = if self.fsb_capable { 0x8000 } else { 0 };
        level | enabled | periodic | periodic_capable | wide_capable | set_value | force_32bit | ((
        self.interrupt_route as u64) << 9u64) | via_fsb | fsb_capable | ((
        self.interrupt_route_capabilities.bitmap as u64) << 32u64)
    }
}

/// Reading a register value and writing the configuration back keeps
/// exactly the bits that the configuration holds.
pub proof fn lemma_config_round_trip(data: u64)
    ensures
        config_bits(config_of(data)) == data & CONFIG_MASK,
{
    let c = config_of(data);
    crate::bits::lemma_u64(data);
    assert((if data & 0x2 != 0 { 0x2u64 } else { 0 }) | (if data & 0x4 != 0 { 0x4u64 } else { 0 }) | (if data
        & 0x8 != 0 { 0x8u64 } else { 0 }) | (if data & 0x10 != 0 { 0x10u64 } else { 0 }) | (if data & 0x20
        != 0 { 0x20u64 } else { 0 }) | (if data & 0x40 != 0 { 0x40u64 } else { 0 }) | (if data & 0x80 != 0 {
        0x80u64
    } else { 0 }) | (((data >> 9u64) & 0x1F) << 9u64) | (if data & 0x4000 != 0 { 0x4000u64 } else { 0 }) | (
    if data & 0x8000 != 0 { 0x8000u64 } else { 0 }) | (((data >> 32u64) & 0xFFFF_FFFF) << 32u64) == data
        & 0xFFFF_FFFF_0000_FEFE) by (bit_vector);
}

/// Encoding a configuration whose route fits in five bits and reading it
/// back gives the same configuration.
pub proof fn lemma_config_encode_decode(c: HpetTimerConfig)
    requires
        c.interrupt_route < 32,
    ensures
        config_of(config_bits(c)) == c,
{
    let x = config_bits(c);
    let route = c.interrupt_route as u64;
    let caps = c.interrupt_route_capabilities.bitmap as u64;
    let (a, b, cc, d, e, f, g, h, i) = (
        c.is_interrupt_level_triggered,
        c.interrupt_enabled,
        c.is_periodic,
        c.is_periodic_capable,
        c.is_64bit_capable,
        c.timer_set_value,
        c.force_32bit_mode,
        c.interrupt_via_fsb,
        c.fsb_capable,
    );
    assert(x == (if a { 0x2u64 } else { 0 }) | (if b { 0x4u64 } else { 0 }) | (if cc { 0x8u64 } else { 0 })
        | (if d { 0x10u64 } else { 0 }) | (if e { 0x20u64 } else { 0 }) | (if f { 0x40u64 } else { 0 }) | (if g {
        0x80u64
    } else { 0 }) | (route << 9u64) | (if h { 0x4000u64 } else { 0 }) | (if i { 0x8000u64 } else { 0 }) | (
    caps << 32u64));
    assert(route < 32 && caps <= 0xFFFF_FFFF && x == (if a { 0x2u64 } else { 0 }) | (if b { 0x4u64 } else { 0 })
        | (if cc { 0x8u64 } else { 0 }) | (if d { 0x10u64 } else { 0 }) | (if e { 0x20u64 } else { 0 }) | (if f {
        0x40u64
    } else { 0 }) | (if g { 0x80u64 } else { 0 }) | (route << 9u64) | (if h { 0x4000u64 } else { 0 }) | (if i {
        0x8000u64
    } else { 0 }) | (caps << 32u64) ==> (x & 0x2 != 0) == a && (x & 0x4 != 0) == b && (x & 0x8 != 0) == cc && (x
        & 0x10 != 0) == d && (x & 0x20 != 0) == e && (x & 0x40 != 0) == f && (x & 0x80 != 0) == g && ((x
        >> 9u64) & 0x1F) == route && (x & 0x4000 != 0) == h && (x & 0x8000 != 0) == i && ((x >> 32u64)
        & 0xFFFF_FFFF) == caps) by (bit_vector);
}

/// The first route above 15, the range of the legacy ISA interrupts.
pub open spec fn first_above_15(routes: Seq<u8>) -> Option<u8>
    decreases routes.len(),
{
    if routes.len() == 0 {
        None
    } else if routes[0] > 15 {
        Some(routes[0])
    } else {
        first_above_15(routes.drop_first())
    }
}

/// The first route whose interrupt is not assigned yet.
pub open spec fn first_unassigned(routes: Seq<u8>, assigned: u32) -> Option<u8>
    decreases routes.len(),
{
    if routes.len() == 0 {
        None
    } else if routes[0] < 32 && !bit_set(assigned, routes[0] as int) {
        Some(routes[0])
    } else {
        first_unassigned(routes.drop_first(), assigned)
    }
}

/// The route for the first timer: one above 15 where there is one,
/// otherwise the first one whose interrupt is free.
pub open spec fn route_choice(routes: Seq<u8>, assigned: u32) -> Option<u8> {
    match first_above_15(routes) {
        Some(r) => Some(r),
        None => first_unassigned(routes, assigned),
    }
}

proof fn lemma_set_bits_below_bound(x: u32, n: int)
    requires
        0 <= n <= 32,
    ensures
        forall|j: int| 0 <= j < set_bits_below(x, n).len() ==> #[trigger] set_bits_below(x, n)[j] < n,
    decreases n,
{
    if n > 0 {
        lemma_set_bits_below_bound(x, n - 1);
        let s = set_bits_below(x, n - 1);
        if bit_set(x, n - 1) {
            assert forall|j: int| 0 <= j < s.push((n - 1) as u8).len() implies #[trigger] s.push(
                (n - 1) as u8,
            )[j] < n by {
                if j < s.len() {
                    assert(s.push((n - 1) as u8)[j] == s[j]);
                }
            }
        }
    }
}

/// The clock registers that the logic reads and writes.
pub struct Hpet {
    /// The general capabilities and ID register.
    pub general_capabilities_id: u64,
    /// The general configuration register.
    pub general_configuration: u64,
}

impl Hpet {
    /// The number of femtoseconds per counter tick.
    pub fn counter_clock_period(&self) -> (r: u64)
        ensures
            r == self.general_capabilities_id >> 32u64,
    {
        let g = self.general_capabilities_id;
        proof {
            crate::bits::lemma_u64(g);
        }
        (g >> 32u64) & 0xFFFF_FFFF
    }

    /// Turns the main counter on or off (bit 0 of the configuration).
    pub fn set_enabled(&mut self, enabled: bool)
        ensures
            final(self).general_configuration == if enabled {
                old(self).general_configuration | 1
            } else {
                old(self).general_configuration & !1u64
            },
            final(self).general_capabilities_id == old(self).general_capabilities_id,
    {
        let mut config = self.general_configuration;
        if enabled {
            config = config | 1;
        } else {
            config = config & !1u64;
        }
        self.general_configuration = config;
    }

    /// Turns the legacy replacement routing on or off (bit 1 of the
    /// configuration).
    pub fn set_enable_legacy_replacement_route(&mut self, enabled: bool)
        ensures
            final(self).general_configuration == if enabled {
                old(self).general_configuration | 2
            } else {
                old(self).general_configuration & !2u64
            },
            final(self).general_capabilities_id == old(self).general_capabilities_id,
    {
        let mut config = self.general_configuration;
        if enabled {
            config = config | 2;
        } else {
            config = config & !2u64;
        }
        self.general_configuration = config;
    }

    /// The route for the first timer, among those the timer can use;
    /// `assigned` has bit `k` set where interrupt `k` is taken already.
    pub fn choose_route(capabilities: InterruptRouteCapabilityBitmap, assigned: u32) -> (r: Option<u8>)
        ensures
            r == route_choice(set_bits(capabilities.bitmap), assigned),
    {
        let routes = capabilities.enabled_routes();
        let ghost all = routes@;
        proof {
            lemma_set_bits_below_bound(capabilities.bitmap, 32);
            assert(all.skip(0) =~= all);
        }
        let mut first_available: Option<u8> = None;
        let mut above_15: Option<u8> = None;
        let mut i: usize = 0;
        while i < routes.len()
            invariant
                all == routes@,
                i <= all.len(),
                forall|j: int| 0 <= j < all.len() ==> #[trigger] all[j] < 32,
                above_15 is None ==> first_above_15(all) == first_above_15(all.skip(i as int)),
                above_15 is Some ==> first_above_15(all) == above_15,
                first_available is None ==> first_unassigned(all, assigned) == first_unassigned(
                    all.skip(i as int),
                    assigned,
                ),
                first_available is Some ==> first_unassigned(all, assigned) == first_available,
            ensures
                above_15 is Some ==> first_above_15(all) == above_15,
                above_15 is None ==> first_above_15(all) is None,
                first_available is Some ==> first_unassigned(all, assigned) == first_available,
                first_available is None ==> first_unassigned(all, assigned) is None,
            decreases all.len() - i,
        {
            let route = routes[i];
            proof {
                assert(all.skip(i as int).drop_first() =~= all.skip(i + 1));
                assert(all.skip(i as int)[0] == route);
            }
            if first_available.is_none() && assigned & (1u32 << route) == 0 {
                first_available = Some(route);
            }
            if above_15.is_none() && route > 15 {
                above_15 = Some(route);
            }
            if first_available.is_some() && above_15.is_some() {
                break;
            }
            i = i + 1;
        }
        match above_15 {
            Some(r) => Some(r),
            None => first_available,
        }
    }

    /// The configuration of the first timer once set up: periodic,
    /// edge-triggered interrupts on `route`, full 64 bits, no FSB delivery,
    /// and the next write sets the period.
    pub fn timer0_config(config: HpetTimerConfig, route: u8) -> (r: HpetTimerConfig)
        requires
            config.is_periodic_capable,
            config.is_64bit_capable,
        ensures
            r == (HpetTimerConfig {
                is_interrupt_level_triggered: false,
                interrupt_enabled: true,
                is_periodic: true,
                force_32bit_mode: false,
                interrupt_via_fsb: false,
                interrupt_route: route,
                timer_set_value: true,
                ..config
            }),
    {
        let mut c = config;
        c.is_interrupt_level_triggered = false;
        c.interrupt_enabled = true;
        c.is_periodic = true;
        c.force_32bit_mode = false;
        c.interrupt_via_fsb = false;
        c.interrupt_route = route;
        c.timer_set_value = true;
        c
    }

    /// The comparator value that makes the first timer fire once a second.
    pub fn ticks_per_second(&self) -> (r: u64)
        requires
            self.general_capabilities_id >> 32u64 != 0,
        ensures
            r == FEMTOS_PER_SEC / (self.general_capabilities_id >> 32u64),
    {
        FEMTOS_PER_SEC / self.counter_clock_period()
    }

    /// The time of the main counter value `counter`.
    pub fn get_time(&self, counter: u64) -> (r: ClockTime)
        requires
            0 < self.general_capabilities_id >> 32u64 <= FEMTOS_PER_SEC,
        ensures
            ({
                let period = self.general_capabilities_id >> 32u64;
                let per_second = FEMTOS_PER_SEC / period;
                &&& r.seconds == counter / per_second
                &&& r.nanoseconds == (counter % per_second) * (period / NANOS_PER_FEMTO)
            }),
            r.normalized(),
    {
        let femtos_per_tick = self.counter_clock_period();
        let nanos_per_tick = femtos_per_tick / NANOS_PER_FEMTO;
        let seconds_divider = FEMTOS_PER_SEC / femtos_per_tick;
        proof {
            lemma_tick_product(femtos_per_tick as int, nanos_per_tick as int, seconds_divider as int);
        }
        let seconds = counter / seconds_divider;
        let rem = counter % seconds_divider;
        proof {
            assert(rem * nanos_per_tick < 1_000_000_000) by (nonlinear_arith)
                requires
                    rem < seconds_divider,
                    nanos_per_tick * seconds_divider <= 1_000_000_000,
                    (seconds_divider - 1) * nanos_per_tick < 1_000_000_000 || nanos_per_tick == 0,
            ;
        }
        let nanoseconds = rem * nanos_per_tick;
        ClockTime { seconds, nanoseconds }
    }

    /// The smallest step of the clock in nanoseconds, at least 1.
    pub fn granularity(&self) -> (r: u64)
        ensures
            r == if (self.general_capabilities_id >> 32u64) / NANOS_PER_FEMTO == 0 {
                1
            } else {
                (self.general_capabilities_id >> 32u64) / NANOS_PER_FEMTO
            },
    {
        let granularity = self.counter_clock_period() / NANOS_PER_FEMTO;
        if granularity == 0 {
            1
        } else {
            granularity
        }
    }

    pub fn name(&self) -> (r: &'static str)
        ensures
            r@ == "HPET"@,
    {
        "HPET"
    }

    pub fn require_calibration(&self) -> (r: bool)
        ensures
            !r,
    {
        false
    }

    pub fn rating(&self) -> (r: u64)
        ensures
            r == 50,
    {
        50
    }
}

/// With `d` ticks of `p` femtoseconds in a second and `q` whole nanoseconds
/// per tick, `d` ticks take at most a second, and one tick fewer less.
proof fn lemma_tick_product(p: int, q: int, d: int)
    requires
        0 < p <= 1_000_000_000_000_000int,
        q == p / 1_000_000,
        d == 1_000_000_000_000_000int / p,
    ensures
        q * d <= 1_000_000_000,
        d >= 1,
        (d - 1) * q < 1_000_000_000 || q == 0,
{
    assert(q * 1_000_000 <= p) by (nonlinear_arith)
        requires
            q == p / 1_000_000,
            p > 0,
    ;
    assert(d * p <= 1_000_000_000_000_000) by (nonlinear_arith)
        requires
            d == 1_000_000_000_000_000int / p,
            p > 0,
    ;
    assert(d >= 1) by (nonlinear_arith)
        requires
            d == 1_000_000_000_000_000int / p,
            0 < p <= 1_000_000_000_000_000int,
    ;
    assert(q * d <= 1_000_000_000) by (nonlinear_arith)
        requires
            q * 1_000_000 <= p,
            d * p <= 1_000_000_000_000_000,
            q >= 0,
            d >= 1,
            p > 0,
    ;
    assert((d - 1) * q < 1_000_000_000 || q == 0) by (nonlinear_arith)
        requires
            q * d <= 1_000_000_000,
            d >= 1,
            q >= 0,
    ;
}

} // verus!
