use emerald_kernel::devices::clock::hardware_timer::HardwareTimer;
use emerald_kernel::devices::clock::hpet::{
    set_bit_positions, Hpet, HpetInterruptStatus, HpetTimerConfig, InterruptRouteCapabilityBitmap,
};
use emerald_kernel::devices::clock::pit::{counter_from_bytes, disable, start_commands, Pit, PortByte};
use emerald_kernel::devices::clock::{Clock, ClockDeviceInfo, ClockTime, RtcTime};

#[test]
fn test_seconds_since_unix_epoch() {
    type RtcTestData = (u16, u8, u8, u8, u8, u8);
    const TESTS: [(RtcTestData, u64); 5] = [
        ((2024, 1, 1, 12, 3, 45), 1704110625),
        ((1987, 11, 28, 0, 0, 0), 565056000),
        ((5135, 3, 4, 9, 33, 45), 99883100025),
        ((2811, 3, 4, 9, 33, 45), 26544792825),
        ((2404, 2, 29, 9, 33, 45), 13700828025),
    ];

    for ((year, month, day, hours, minutes, seconds), expected) in TESTS {
        let t = RtcTime {
            seconds,
            minutes,
            hours,
            day_of_month: day,
            month,
            year,
        };
        assert_eq!(t.seconds_since_unix_epoch(), Some(expected));
    }
}

#[test]
fn clock_time_add_then_sub() {
    let a = ClockTime { seconds: 10, nanoseconds: 900_000_000 };
    let b = ClockTime { seconds: 2, nanoseconds: 200_000_000 };
    let s = a.add(b);
    assert_eq!(s, ClockTime { seconds: 13, nanoseconds: 100_000_000 });
    assert_eq!(s.sub(b), a);
    assert_eq!(s.as_nanos(), 13_100_000_000);
}

#[test]
fn hpet_config_round_trip() {
    let data: u64 = 0xDEAD_BEEF_FFFF_FFFF;
    let c = HpetTimerConfig::new(data);
    assert!(c.is_interrupt_level_triggered);
    assert_eq!(c.interrupt_route, 0x1F);
    assert_eq!(c.interrupt_route_capabilities.bitmap, 0xDEAD_BEEF);
    assert_eq!(c.as_u64(), data & 0xFFFF_FFFF_0000_FEFE);

    let d: u64 = 0x0000_0001_0000_0614;
    let c = HpetTimerConfig::new(d);
    assert!(c.is_periodic_capable);
    assert!(!c.is_periodic);
    assert_eq!(c.interrupt_route, 3);
    assert_eq!(c.as_u64(), d);
}

#[test]
fn hpet_timer_setup() {
    let c = HpetTimerConfig::new(0x0010_0000_0000_0030);
    let t = Hpet::timer0_config(c, 20);
    assert!(t.interrupt_enabled && t.is_periodic && t.timer_set_value);
    assert!(!t.is_interrupt_level_triggered && !t.force_32bit_mode && !t.interrupt_via_fsb);
    assert_eq!(t.interrupt_route, 20);
    assert_eq!(t.as_u64(), 0x0010_0000_0000_0030 | 0x4 | 0x8 | 0x40 | (20 << 9));
}

#[test]
fn hpet_routes() {
    let caps = InterruptRouteCapabilityBitmap { bitmap: (1 << 2) | (1 << 20) | (1 << 22) };
    assert!(caps.is_set(20) && !caps.is_set(3));
    assert_eq!(caps.enabled_routes(), vec![2, 20, 22]);
    assert_eq!(Hpet::choose_route(caps, 0), Some(20));

    let low = InterruptRouteCapabilityBitmap { bitmap: (1 << 2) | (1 << 3) };
    assert_eq!(Hpet::choose_route(low, 1 << 2), Some(3));
    assert_eq!(Hpet::choose_route(low, (1 << 2) | (1 << 3)), None);
    assert_eq!(Hpet::choose_route(InterruptRouteCapabilityBitmap { bitmap: 0 }, 0), None);
}

#[test]
fn hpet_interrupt_status() {
    let status = HpetInterruptStatus { status: 0b1010 };
    assert_eq!(status.set_interrupts(), vec![1, 3]);
    assert_eq!(status.ack(3), 8);
    assert_eq!(set_bit_positions(0x8000_0001), vec![0, 31]);
}

#[test]
fn hpet_time_and_registers() {
    // 10 ns per tick
    let mut hpet = Hpet { general_capabilities_id: 10_000_000u64 << 32, general_configuration: 0x10 };
    assert_eq!(hpet.counter_clock_period(), 10_000_000);
    assert_eq!(hpet.ticks_per_second(), 100_000_000);
    assert_eq!(hpet.get_time(250_000_003), ClockTime { seconds: 2, nanoseconds: 500_000_030 });
    assert_eq!(hpet.granularity(), 10);
    hpet.set_enabled(true);
    assert_eq!(hpet.general_configuration, 0x11);
    hpet.set_enable_legacy_replacement_route(true);
    assert_eq!(hpet.general_configuration, 0x13);
    hpet.set_enabled(false);
    hpet.set_enable_legacy_replacement_route(false);
    assert_eq!(hpet.general_configuration, 0x10);

    let fine = Hpet { general_capabilities_id: 100u64 << 32, general_configuration: 0 };
    assert_eq!(fine.granularity(), 1);
}

#[test]
fn pit_counting() {
    let mut pit = Pit::new();
    assert_eq!(pit.get_elapsed(0xFFF0), 0x10);
    assert_eq!(pit.tick_total_counter(0xFF00), 0xF0);
    let t = pit.get_time(0xFF00 - 1193181u32 as u16);
    assert_eq!(pit.total_counter, 0xF0 + (1193181u32 as u16) as u64);
    assert_eq!(t.seconds, pit.total_counter / 1193181);
    assert_eq!(t.nanoseconds, (pit.total_counter % 1193181) * 838);
    assert_eq!(counter_from_bytes(0x34, 0x12), 0x1234);
    assert_eq!(pit.granularity(), 838);
    assert_eq!(pit.rating(), 40);
}

#[test]
fn pit_commands() {
    assert_eq!(
        disable(),
        vec![PortByte { port: 0x43, value: 0x10 }, PortByte { port: 0x40, value: 1 }]
    );
    assert_eq!(start_commands()[0], PortByte { port: 0x43, value: 0x34 });
}

#[test]
fn hardware_timer_dispatch() {
    let hpet = HardwareTimer::Hpet(Hpet { general_capabilities_id: 10_000_000u64 << 32, general_configuration: 0 });
    let pit = HardwareTimer::Pit(Pit::new());
    assert_eq!(hpet.name(), "HPET");
    assert_eq!(pit.name(), "PIT");
    assert_eq!(hpet.rating(), 50);
    assert_eq!(pit.rating(), 40);
    assert_eq!(pit.granularity(), 838);
    assert!(!hpet.require_calibration());
}

#[test]
fn clock_devices_best_first() {
    let mut clock = Clock::new(1_700_000_000);
    let pit = ClockDeviceInfo { id: 1, rating: 40, require_calibration: false };
    let hpet = ClockDeviceInfo { id: 2, rating: 50, require_calibration: false };
    let tsc = ClockDeviceInfo { id: 3, rating: 100, require_calibration: true };
    assert_eq!(clock.add_device(pit), Some(pit));
    assert_eq!(clock.add_device(hpet), Some(hpet));
    assert_eq!(clock.add_device(tsc), Some(tsc));
    let other = ClockDeviceInfo { id: 4, rating: 50, require_calibration: false };
    assert_eq!(clock.add_device(other), None);
    let ids: Vec<u64> = clock.devices.iter().map(|d| d.id).collect();
    assert_eq!(ids, vec![3, 2, 4, 1]);
    assert_eq!(clock.get_best_clock(), Some(tsc));
    assert_eq!(clock.get_best_for_calibration(), Some(hpet));
}

#[test]
fn clock_system_time_ticks() {
    let mut clock = Clock::new(100);
    clock.tick_system_time(ClockTime { seconds: 5, nanoseconds: 0 });
    assert_eq!(clock.system_time.time_since_startup(), ClockTime { seconds: 0, nanoseconds: 0 });
    clock
        .system_time
        .update_device(ClockTime { seconds: 0, nanoseconds: 0 }, ClockTime { seconds: 1, nanoseconds: 0 }, 200);
    clock.tick_system_time(ClockTime { seconds: 3, nanoseconds: 500 });
    assert_eq!(clock.system_time.time_since_startup(), ClockTime { seconds: 2, nanoseconds: 500 });
    assert_eq!(
        clock.system_time.time_since_unix_epoch(),
        ClockTime { seconds: 202, nanoseconds: 500 }
    );
}
