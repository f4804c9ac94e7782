//! PCI configuration space: addresses of configuration registers, the
//! decoding of what a device's registers hold, and the order in which
//! devices are probed. The port I/O is done by the caller.

use vstd::prelude::*;

verus! {

/// Register offsets of the standard configuration header.
pub const REG_VENDOR_ID: u8 = 0x00;
pub const REG_COMMAND: u8 = 0x04;
pub const REG_STATUS: u8 = 0x06;
pub const REG_BAR0: u8 = 0x10;

/// The value written to the address port to reach a configuration
/// register: the enable bit, bus, device, function and offset.
pub open spec fn config_address(bus: u8, dev: u8, func: u8, offset: u8) -> u32 {
    (0x8000_0000u32 | ((bus as u32) << 16u32) | ((dev as u32) << 11u32) | ((func as u32) << 8u32) | (offset as u32))
        as u32
}

/// The fields of a configuration address read back from it: the enable bit
/// 31 is set, the bus is bits 16 to 23, the device bits 11 to 15, the
/// function bits 8 to 10 and the register offset the low byte (for a device
/// number below 32 and a function number below 8, which fit their fields).
pub proof fn lemma_config_address_fields(bus: u8, dev: u8, func: u8, offset: u8)
    requires
        dev < 32,
        func < 8,
    ensures
        ({
            let a = config_address(bus, dev, func, offset);
            &&& a & 0x8000_0000u32 != 0
            &&& (a >> 16u32) & 0xFFu32 == bus as u32
            &&& (a >> 11u32) & 0x1Fu32 == dev as u32
            &&& (a >> 8u32) & 0x07u32 == func as u32
            &&& a & 0xFFu32 == offset as u32
        }),
{
    let b = bus as u32;
    let d = dev as u32;
    let f = func as u32;
    let o = offset as u32;
    assert({
        let a = 0x8000_0000u32 | (b << 16u32) | (d << 11u32) | (f << 8u32) | o;
        &&& a & 0x8000_0000u32 != 0
        &&& (a >> 16u32) & 0xFFu32 == b
        &&& (a >> 11u32) & 0x1Fu32 == d
        &&& (a >> 8u32) & 0x07u32 == f
        &&& a & 0xFFu32 == o
    }) by (bit_vector)
        requires
            b < 256,
            d < 32,
            f < 8,
            o < 256,
    ;
}

pub fn pci_config_address(bus: u8, dev: u8, func: u8, offset: u8) -> (r: u32)
    ensures
        r == config_address(bus, dev, func, offset),
{
    0x8000_0000u32 | ((bus as u32) << 16u32) | ((dev as u32) << 11u32) | ((func as u32) << 8u32) | (offset as u32)
}

/// The order in which bus, device and function numbers are probed.
pub struct PciDevicePropeIterator {
    pub bus: u8,
    pub dev: u8,
    pub func: u8,
    pub done: bool,
}

impl PciDevicePropeIterator {
    pub fn new() -> (r: PciDevicePropeIterator)
        ensures
            r.bus == 0 && r.dev == 0 && r.func == 0 && !r.done,
    {
        PciDevicePropeIterator { bus: 0, dev: 0, func: 0, done: false }
    }

    /// The number of addresses not yet handed out.
    pub open spec fn remaining(&self) -> int {
        if self.done {
            0
        } else {
            (256 - self.bus) * 256 - self.dev * 8 - self.func
        }
    }

    pub open spec fn wf(&self) -> bool {
        self.done || (self.dev < 32 && self.func < 8)
    }

    /// The next address to probe: functions first, then devices, then
    /// buses; none after bus 255.
    pub fn next_address(&mut self) -> (r: Option<(u8, u8, u8)>)
        requires
            old(self).wf(),
        ensures
            final(self).wf(),
            old(self).done ==> r is None && final(self).done,
            !old(self).done ==> r == Some((old(self).bus, old(self).dev, old(self).func)),
            !old(self).done ==> final(self).remaining() == old(self).remaining() - 1,
            !old(self).done && old(self).func < 7 ==> final(self).bus == old(self).bus && final(self).dev == old(self).dev
                && final(self).func == old(self).func + 1 && !final(self).done,
            !old(self).done && old(self).func == 7 && old(self).dev < 31 ==> final(self).bus == old(self).bus
                && final(self).dev == old(self).dev + 1 && final(self).func == 0 && !final(self).done,
            !old(self).done && old(self).func == 7 && old(self).dev == 31 && old(self).bus < 255 ==> final(self).bus
                == old(self).bus + 1 && final(self).dev == 0 && final(self).func == 0 && !final(self).done,
            !old(self).done && old(self).func == 7 && old(self).dev == 31 && old(self).bus == 255 ==> final(self).done,
    {
        if self.done {
            return None;
        }
        let r = (self.bus, self.dev, self.func);
        if self.func < 7 {
            self.func = self.func + 1;
        } else if self.dev < 31 {
            self.func = 0;
            self.dev = self.dev + 1;
        } else if self.bus < 255 {
            self.func = 0;
            self.dev = 0;
            self.bus = self.bus + 1;
        } else {
            self.done = true;
        }
        Some(r)
    }
}

/// The class of a device, with its subclass, programming interface and
/// revision.
#[derive(Debug, Clone, Copy, PartialEq, Eq, Structural)]
pub enum PciDeviceType {
    Unclassified(u8, u8, u8),
    MassStorageController(u8, u8, u8),
    NetworkController(u8, u8, u8),
    DisplayController(u8, u8, u8),
    MultimediaController(u8, u8, u8),
    MemoryController(u8, u8, u8),
    BridgeDevice(u8, u8, u8),
    SimpleCommunicationController(u8, u8, u8),
    BaseSystemPeripheral(u8, u8, u8),
    InputDeviceController(u8, u8, u8),
    DockingStation(u8, u8, u8),
    Processor(u8, u8, u8),
    SerialBusController(u8, u8, u8),
    WirelessController(u8, u8, u8),
    IntelligentController(u8, u8, u8),
    SatelliteCommunicationController(u8, u8, u8),
    EncryptionController(u8, u8, u8),
    SignalProcessingController(u8, u8, u8),
    ProcessingAccelerator(u8, u8, u8),
    NonEssentialInstrumentation(u8, u8, u8),
    CoProcessor(u8, u8, u8),
    Reserved(u8, u8, u8, u8),
    Unassigned(u8, u8, u8),
}

/// The class of the class register value `d`: class in the top byte, then
/// subclass, programming interface and revision.
pub open spec fn device_type_of(d: u32) -> PciDeviceType {
    let c = (d / 0x100_0000) as u8;
    let s = ((d / 0x1_0000) % 0x100) as u8;
    let p = ((d / 0x100) % 0x100) as u8;
    let r = (d % 0x100) as u8;
    if c == 0x00 {
        PciDeviceType::Unclassified(s, p, r)
    } else if c == 0x01 {
        PciDeviceType::MassStorageController(s, p, r)
    } else if c == 0x02 {
        PciDeviceType::NetworkController(s, p, r)
    } else if c == 0x03 {
        PciDeviceType::DisplayController(s, p, r)
    } else if c == 0x04 {
        PciDeviceType::MultimediaController(s, p, r)
    } else if c == 0x05 {
        PciDeviceType::MemoryController(s, p, r)
    } else if c == 0x06 {
        PciDeviceType::BridgeDevice(s, p, r)
    } else if c == 0x07 {
        PciDeviceType::SimpleCommunicationController(s, p, r)
    } else if c == 0x08 {
        PciDeviceType::BaseSystemPeripheral(s, p, r)
    } else if c == 0x09 {
        PciDeviceType::InputDeviceController(s, p, r)
    } else if c == 0x0a {
        PciDeviceType::DockingStation(s, p, r)
    } else if c == 0x0b {
        PciDeviceType::Processor(s, p, r)
    } else if c == 0x0c {
        PciDeviceType::SerialBusController(s, p, r)
    } else if c == 0x0d {
        PciDeviceType::WirelessController(s, p, r)
    } else if c == 0x0e {
        PciDeviceType::IntelligentController(s, p, r)
    } else if c == 0x0f {
        PciDeviceType::SatelliteCommunicationController(s, p, r)
    } else if c == 0x10 {
        PciDeviceType::EncryptionController(s, p, r)
    } else if c == 0x11 {
        PciDeviceType::SignalProcessingController(s, p, r)
    } else if c == 0x12 {
        PciDeviceType::ProcessingAccelerator(s, p, r)
    } else if c == 0x13 {
        PciDeviceType::NonEssentialInstrumentation(s, p, r)
    } else if c == 0x40 {
        PciDeviceType::CoProcessor(s, p, r)
    } else if c == 0xff {
        PciDeviceType::Unassigned(s, p, r)
    } else {
        PciDeviceType::Reserved(c, s, p, r)
    }
}

impl PciDeviceType {
    pub fn new(class_dword: u32) -> (r: Self)
        ensures
            r == device_type_of(class_dword),
    {
        let d = class_dword;
        proof {
            crate::bits::lemma_u32(d);
        }
        let c = (d >> 24u32) as u8;
        let s = ((d >> 16u32) & 0xff) as u8;
        let p = ((d >> 8u32) & 0xff) as u8;
        let r = (d & 0xff) as u8;
        match c {
            0x00 => PciDeviceType::Unclassified(s, p, r),
            0x01 => PciDeviceType::MassStorageController(s, p, r),
            0x02 => PciDeviceType::NetworkController(s, p, r),
            0x03 => PciDeviceType::DisplayController(s, p, r),
            0x04 => PciDeviceType::MultimediaController(s, p, r),
            0x05 => PciDeviceType::MemoryController(s, p, r),
            0x06 => PciDeviceType::BridgeDevice(s, p, r),
            0x07 => PciDeviceType::SimpleCommunicationController(s, p, r),
            0x08 => PciDeviceType::BaseSystemPeripheral(s, p, r),
            0x09 => PciDeviceType::InputDeviceController(s, p, r),
            0x0a => PciDeviceType::DockingStation(s, p, r),
            0x0b => PciDeviceType::Processor(s, p, r),
            0x0c => PciDeviceType::SerialBusController(s, p, r),
            0x0d => PciDeviceType::WirelessController(s, p, r),
            0x0e => PciDeviceType::IntelligentController(s, p, r),
            0x0f => PciDeviceType::SatelliteCommunicationController(s, p, r),
            0x10 => PciDeviceType::EncryptionController(s, p, r),
            0x11 => PciDeviceType::SignalProcessingController(s, p, r),
            0x12 => PciDeviceType::ProcessingAccelerator(s, p, r),
            0x13 => PciDeviceType::NonEssentialInstrumentation(s, p, r),
            0x40 => PciDeviceType::CoProcessor(s, p, r),
            0xff => PciDeviceType::Unassigned(s, p, r),
            _ => PciDeviceType::Reserved(c, s, p, r),
        }
    }
}

/// A base address register.
#[derive(Debug, Clone, Copy, PartialEq, Eq, Structural)]
pub enum PciBar {
    Memory { addr: u64, size: u64, prefetchable: bool },
    Io { addr: u16, size: u64 },
    NoBar,
}

impl PciBar {
    pub fn get_io(&self) -> (r: Option<(u16, u64)>)
        ensures
            r == match *self {
                PciBar::Io { addr, size } => Some((addr, size)),
                _ => None,
            },
    {
        match self {
            PciBar::Io { addr, size } => Some((*addr, *size)),
            _ => None,
        }
    }

    pub fn get_memory(&self) -> (r: Option<(u64, u64, bool)>)
        ensures
            r == match *self {
                PciBar::Memory { addr, size, prefetchable } => Some((addr, size, prefetchable)),
                _ => None,
            },
    {
        match self {
            PciBar::Memory { addr, size, prefetchable } => Some((*addr, *size, *prefetchable)),
            _ => None,
        }
    }
}

/// The size of a region from the value read back after writing all ones
/// (under `mask`) to its register: the two's complement of the address bits.
/// The sum is taken in 32 bits, wrapping.
pub open spec fn bar_size(probed: u32, mask: u32) -> u64 {
    (((!(probed & mask)) as int + 1) % 0x1_0000_0000) as u64
}

/// What the base address registers hold, from their values (`raw`) and
/// the values read back after writing all ones (`probed`); none when a
/// memory register has a reserved type, or a 64-bit register is the last.
pub open spec fn decode_bars_spec(raw: Seq<u32>, probed: Seq<u32>, i: int) -> Option<Seq<PciBar>>
    decreases 6 - i,
{
    if i >= 6 || i < 0 {
        Some(Seq::empty())
    } else {
        let v = raw[i];
        if v == 0 {
            match decode_bars_spec(raw, probed, i + 1) {
                Some(rest) => Some(seq![PciBar::NoBar] + rest),
                None => None,
            }
        } else if v & 1 == 1 {
            let bar = PciBar::Io { addr: (v & 0xffff_fffc) as u16, size: bar_size(probed[i], 0xffff_fffc) };
            match decode_bars_spec(raw, probed, i + 1) {
                Some(rest) => Some(seq![bar] + rest),
                None => None,
            }
        } else {
            let ty = (v & 0x6) / 2;
            let prefetchable = v & 0x8 == 0x8;
            let size = bar_size(probed[i], 0xffff_fff0);
            if ty == 0 {
                let bar = PciBar::Memory { addr: (v & 0xffff_fff0) as u64, size, prefetchable };
                match decode_bars_spec(raw, probed, i + 1) {
                    Some(rest) => Some(seq![bar] + rest),
                    None => None,
                }
            } else if ty == 2 && i < 5 {
                let bar = PciBar::Memory {
                    addr: ((raw[i + 1] as u64) * 0x1_0000_0000 + (v & 0xffff_fff0) as u64) as u64,
                    size,
                    prefetchable,
                };
                match decode_bars_spec(raw, probed, i + 2) {
                    Some(rest) => Some(seq![bar, bar] + rest),
                    None => None,
                }
            } else {
                None
            }
        }
    }
}

/// A PCI function's configuration.
#[derive(Debug, Clone, Copy)]
pub struct PciDeviceConfig {
    pub bus: u8,
    pub dev: u8,
    pub func: u8,
    pub vendor_id: u16,
    pub device_id: u16,
    pub device_type: PciDeviceType,
    pub header_type: u8,
    pub base_address: [PciBar; 6],
    pub interrupt_line: u8,
    pub interrupt_pin: u8,
    pub capabilities_ptr: Option<u8>,
}

/// The registers of a function, as read by the caller.
#[derive(Debug, Clone, Copy)]
pub struct ConfigReadings {
    pub vendor_id: u16,
    pub device_id: u16,
    pub class_dword: u32,
    pub header_type: u8,
    pub bars: [u32; 6],
    pub probed_bars: [u32; 6],
    pub interrupt_info: u16,
    pub capabilities_ptr: u8,
}

impl PciDeviceConfig {
    /// The configuration of the function from its registers: none when no
    /// device answers (vendor `0xFFFF`), the header is not a standard one,
    /// or a base address register cannot be decoded.
    pub fn probe(bus: u8, dev: u8, func: u8, regs: &ConfigReadings) -> (r: Option<PciDeviceConfig>)
        ensures
            regs.vendor_id == 0xffff ==> r is None,
            regs.vendor_id != 0xffff && regs.header_type & 0x7f != 0 ==> r is None,
            regs.vendor_id != 0xffff && regs.header_type & 0x7f == 0 ==> match decode_bars_spec(
                regs.bars@,
                regs.probed_bars@,
                0,
            ) {
                None => r is None,
                Some(bars) => r matches Some(c) && c.bus == bus && c.dev == dev && c.func == func && c.vendor_id
                    == regs.vendor_id && c.device_id == regs.device_id && c.device_type == device_type_of(
                    regs.class_dword,
                ) && c.header_type == regs.header_type && c.base_address@ == bars && c.interrupt_line
                    == regs.interrupt_info % 256 && c.interrupt_pin == regs.interrupt_info / 256 && c.capabilities_ptr
                    == (if regs.capabilities_ptr == 0 {
                    None
                } else {
                    Some(regs.capabilities_ptr)
                }),
            },
    {
        if regs.vendor_id == 0xffff {
            return None;
        }
        let device_type = PciDeviceType::new(regs.class_dword);
        if regs.header_type & 0x7f != 0 {
            return None;
        }
        let bars = match decode_bars(&regs.bars, &regs.probed_bars) {
            Some(b) => b,
            None => {
                return None;
            },
        };
        let info = regs.interrupt_info;
        proof {
            crate::bits::lemma_u16(info);
        }
        let capabilities_ptr = if regs.capabilities_ptr == 0 {
            None
        } else {
            Some(regs.capabilities_ptr)
        };
        Some(
            PciDeviceConfig {
                bus,
                dev,
                func,
                vendor_id: regs.vendor_id,
                device_id: regs.device_id,
                device_type,
                header_type: regs.header_type,
                base_address: bars,
                interrupt_line: info as u8,
                interrupt_pin: (info >> 8u16) as u8,
                capabilities_ptr,
            },
        )
    }

    /// The value written to the address port before reading the register
    /// at `offset` from the data port.
    pub fn read_config(&self, offset: u8) -> (r: u32)
        ensures
            r == config_address(self.bus, self.dev, self.func, offset),
    {
        pci_config_address(self.bus, self.dev, self.func, offset)
    }

    /// The address port value and the data port value that write `value`
    /// to the register at `offset`.
    pub fn write_config(&self, offset: u8, value: u32) -> (r: (u32, u32))
        ensures
            r == (config_address(self.bus, self.dev, self.func, offset), value),
    {
        (pci_config_address(self.bus, self.dev, self.func, offset), value)
    }

    pub fn write_command(&self, value: u16) -> (r: (u32, u32))
        ensures
            r == (config_address(self.bus, self.dev, self.func, 4), value as u32),
    {
        self.write_config(REG_COMMAND, value as u32)
    }

    pub fn read_command(&self) -> (r: u32)
        ensures
            r == config_address(self.bus, self.dev, self.func, 4),
    {
        self.read_config(REG_COMMAND)
    }

    pub fn write_status(&self, value: u16) -> (r: (u32, u32))
        ensures
            r == (config_address(self.bus, self.dev, self.func, 6), value as u32),
    {
        self.write_config(REG_STATUS, value as u32)
    }

    pub fn read_status(&self) -> (r: u32)
        ensures
            r == config_address(self.bus, self.dev, self.func, 6),
    {
        self.read_config(REG_STATUS)
    }
}

fn size_from_probe(probed: u32, mask: u32) -> (r: u64)
    ensures
        r == bar_size(probed, mask),
{
    (!(probed & mask)).wrapping_add(1) as u64
}

/// Decodes the six base address registers, as `decode_bars_spec` says.
fn decode_bars(raw: &[u32; 6], probed: &[u32; 6]) -> (r: Option<[PciBar; 6]>)
    ensures
        match decode_bars_spec(raw@, probed@, 0) {
            None => r is None,
            Some(bars) => r matches Some(b) && b@ == bars,
        },
{
    let mut out: [PciBar; 6] = [PciBar::NoBar, PciBar::NoBar, PciBar::NoBar, PciBar::NoBar, PciBar::NoBar, PciBar::NoBar];
    let mut i: usize = 0;
    while i < 6
        invariant
            i <= 6,
            raw@.len() == 6,
            probed@.len() == 6,
            out@.len() == 6,
            forall|j: int| i <= j < 6 ==> out@[j] == PciBar::NoBar,
            match decode_bars_spec(raw@, probed@, 0) {
                None => decode_bars_spec(raw@, probed@, i as int) is None,
                Some(all) => decode_bars_spec(raw@, probed@, i as int) matches Some(rest) && all == out@.subrange(
                    0,
                    i as int,
                ) + rest,
            },
        decreases 6 - i,
    {
        let ghost before = out@;
        let v = raw[i];
        if v == 0 {
            proof {
                assert(out@.subrange(0, i + 1) =~= out@.subrange(0, i as int) + seq![PciBar::NoBar]);
            }
            i = i + 1;
        } else if v & 1 == 1 {
            let size = size_from_probe(probed[i], 0xffff_fffc);
            let bar = PciBar::Io { addr: (v & 0xffff_fffc) as u16, size };
            out.set(i, bar);
            proof {
                assert(out@.subrange(0, i + 1) =~= before.subrange(0, i as int) + seq![bar]);
            }
            i = i + 1;
        } else {
            let ty = (v & 0x6) >> 1u32;
            proof {
                crate::bits::lemma_u32(v);
            }
            let prefetchable = (v & 0x8) == 0x8;
            let size = size_from_probe(probed[i], 0xffff_fff0);
            if ty == 0 {
                let bar = PciBar::Memory { addr: (v & 0xffff_fff0) as u64, size, prefetchable };
                out.set(i, bar);
                proof {
                    assert(out@.subrange(0, i + 1) =~= before.subrange(0, i as int) + seq![bar]);
                }
                i = i + 1;
            } else if ty == 2 && i < 5 {
                let high = raw[i + 1];
                proof {
                    crate::bits::lemma_join_u32(v & 0xffff_fff0, high);
                }
                let bar = PciBar::Memory {
                    addr: ((high as u64) << 32u64) | ((v & 0xffff_fff0) as u64),
                    size,
                    prefetchable,
                };
                out.set(i, bar);
                out.set(i + 1, bar);
                proof {
                    assert(out@.subrange(0, i + 2) =~= before.subrange(0, i as int) + seq![bar, bar]);
                }
                i = i + 2;
            } else {
                return None;
            }
        }
    }
    proof {
        assert(out@.subrange(0, 6) =~= out@);
        if let Some(all) = decode_bars_spec(raw@, probed@, 0) {
            assert(decode_bars_spec(raw@, probed@, 6) == Some(Seq::<PciBar>::empty()));
            assert(all =~= out@);
        }
    }
    Some(out)
}

} // verus!
