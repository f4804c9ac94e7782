//! The fixed ACPI description table and the register accesses it describes.

pub mod flags;

use vstd::prelude::*;
use crate::bytes::{le_at, read_u16, read_u32, read_u64, read_u8};
use super::ApicGenericAddress;

verus! {

/// The fixed ACPI description table body (240 bytes).
#[derive(Debug, Clone, Copy)]
pub struct Facp {
    pub firmware_control: u32,
    pub dsdt: u32,
    pub reserved: u8,
    pub preferred_pm_profile: u8,
    pub sci_interrupt: u16,
    pub smi_command_port: u32,
    pub acpi_enable: u8,
    pub acpi_disable: u8,
    pub s4bios_req: u8,
    pub pstate_control: u8,
    pub pm1a_event_block: u32,
    pub pm1b_event_block: u32,
    pub pm1a_control_block: u32,
    pub pm1b_control_block: u32,
    pub pm2_control_block: u32,
    pub pm_timer_block: u32,
    pub gpe0_block: u32,
    pub gpe1_block: u32,
    pub pm1_event_length: u8,
    pub pm1_control_length: u8,
    pub pm2_control_length: u8,
    pub pm_timer_length: u8,
    pub gpe0_block_length: u8,
    pub gpe1_block_length: u8,
    pub gpe1_base: u8,
    pub cstate_control: u8,
    pub p_level2_latency: u16,
    pub p_level3_latency: u16,
    pub flush_size: u16,
    pub flush_stride: u16,
    pub duty_offset: u8,
    pub duty_width: u8,
    pub day_alarm: u8,
    pub month_alarm: u8,
    pub century: u8,
    pub iapc_boot_arch: u16,
    pub reserved2: u8,
    pub flags: u32,
    pub reset_reg: ApicGenericAddress,
    pub reset_value: u8,
    pub arm_boot_arch: u16,
    pub fadt_minor_version: u8,
    pub x_firmware_control: u64,
    pub x_dsdt: u64,
    pub x_pm1a_event_block: ApicGenericAddress,
    pub x_pm1b_event_block: ApicGenericAddress,
    pub x_pm1a_control_block: ApicGenericAddress,
    pub x_pm1b_control_block: ApicGenericAddress,
    pub x_pm2_control_block: ApicGenericAddress,
    pub x_pm_timer_block: ApicGenericAddress,
    pub x_gpe0_block: ApicGenericAddress,
    pub x_gpe1_block: ApicGenericAddress,
    pub sleep_control_reg: ApicGenericAddress,
    pub sleep_status_reg: ApicGenericAddress,
    pub hypervisor_vendor_id: u64,
}

impl Facp {
    /// The structure holds the little-endian fields of `s` at `at`.
    pub open spec fn decoded_from(self, s: Seq<u8>, at: int) -> bool {
        &&& self.firmware_control == le_at(s, at + 0, 4)
        &&& self.dsdt == le_at(s, at + 4, 4)
        &&& self.reserved == le_at(s, at + 8, 1)
        &&& self.preferred_pm_profile == le_at(s, at + 9, 1)
        &&& self.sci_interrupt == le_at(s, at + 10, 2)
        &&& self.smi_command_port == le_at(s, at + 12, 4)
        &&& self.acpi_enable == le_at(s, at + 16, 1)
        &&& self.acpi_disable == le_at(s, at + 17, 1)
        &&& self.s4bios_req == le_at(s, at + 18, 1)
        &&& self.pstate_control == le_at(s, at + 19, 1)
        &&& self.pm1a_event_block == le_at(s, at + 20, 4)
        &&& self.pm1b_event_block == le_at(s, at + 24, 4)
        &&& self.pm1a_control_block == le_at(s, at + 28, 4)
        &&& self.pm1b_control_block == le_at(s, at + 32, 4)
        &&& self.pm2_control_block == le_at(s, at + 36, 4)
        &&& self.pm_timer_block == le_at(s, at + 40, 4)
        &&& self.gpe0_block == le_at(s, at + 44, 4)
        &&& self.gpe1_block == le_at(s, at + 48, 4)
        &&& self.pm1_event_length == le_at(s, at + 52, 1)
        &&& self.pm1_control_length == le_at(s, at + 53, 1)
        &&& self.pm2_control_length == le_at(s, at + 54, 1)
        &&& self.pm_timer_length == le_at(s, at + 55, 1)
        &&& self.gpe0_block_length == le_at(s, at + 56, 1)
        &&& self.gpe1_block_length == le_at(s, at + 57, 1)
        &&& self.gpe1_base == le_at(s, at + 58, 1)
        &&& self.cstate_control == le_at(s, at + 59, 1)
        &&& self.p_level2_latency == le_at(s, at + 60, 2)
        &&& self.p_level3_latency == le_at(s, at + 62, 2)
        &&& self.flush_size == le_at(s, at + 64, 2)
        &&& self.flush_stride == le_at(s, at + 66, 2)
        &&& self.duty_offset == le_at(s, at + 68, 1)
        &&& self.duty_width == le_at(s, at + 69, 1)
        &&& self.day_alarm == le_at(s, at + 70, 1)
        &&& self.month_alarm == le_at(s, at + 71, 1)
        &&& self.century == le_at(s, at + 72, 1)
        &&& self.iapc_boot_arch == le_at(s, at + 73, 2)
        &&& self.reserved2 == le_at(s, at + 75, 1)
        &&& self.flags == le_at(s, at + 76, 4)
        &&& self.reset_reg.decoded_from(s, at + 80)
        &&& self.reset_value == le_at(s, at + 92, 1)
        &&& self.arm_boot_arch == le_at(s, at + 93, 2)
        &&& self.fadt_minor_version == le_at(s, at + 95, 1)
        &&& self.x_firmware_control == le_at(s, at + 96, 8)
        &&& self.x_dsdt == le_at(s, at + 104, 8)
        &&& self.x_pm1a_event_block.decoded_from(s, at + 112)
        &&& self.x_pm1b_event_block.decoded_from(s, at + 124)
        &&& self.x_pm1a_control_block.decoded_from(s, at + 136)
        &&& self.x_pm1b_control_block.decoded_from(s, at + 148)
        &&& self.x_pm2_control_block.decoded_from(s, at + 160)
        &&& self.x_pm_timer_block.decoded_from(s, at + 172)
        &&& self.x_gpe0_block.decoded_from(s, at + 184)
        &&& self.x_gpe1_block.decoded_from(s, at + 196)
        &&& self.sleep_control_reg.decoded_from(s, at + 208)
        &&& self.sleep_status_reg.decoded_from(s, at + 220)
        &&& self.hypervisor_vendor_id == le_at(s, at + 232, 8)
    }

    /// Decodes the structure from the bytes of `b` at `at`.
    pub fn from_bytes(b: &[u8], at: usize) -> (r: Self)
        requires
            at + 240 <= b@.len(),
        ensures
            r.decoded_from(b@, at as int),
    {
        let _len = b.len();
        Facp {
            firmware_control: read_u32(b, at + 0),
            dsdt: read_u32(b, at + 4),
            reserved: read_u8(b, at + 8),
            preferred_pm_profile: read_u8(b, at + 9),
            sci_interrupt: read_u16(b, at + 10),
            smi_command_port: read_u32(b, at + 12),
            acpi_enable: read_u8(b, at + 16),
            acpi_disable: read_u8(b, at + 17),
            s4bios_req: read_u8(b, at + 18),
            pstate_control: read_u8(b, at + 19),
            pm1a_event_block: read_u32(b, at + 20),
            pm1b_event_block: read_u32(b, at + 24),
            pm1a_control_block: read_u32(b, at + 28),
            pm1b_control_block: read_u32(b, at + 32),
            pm2_control_block: read_u32(b, at + 36),
            pm_timer_block: read_u32(b, at + 40),
            gpe0_block: read_u32(b, at + 44),
            gpe1_block: read_u32(b, at + 48),
            pm1_event_length: read_u8(b, at + 52),
            pm1_control_length: read_u8(b, at + 53),
            pm2_control_length: read_u8(b, at + 54),
            pm_timer_length: read_u8(b, at + 55),
            gpe0_block_length: read_u8(b, at + 56),
            gpe1_block_length: read_u8(b, at + 57),
            gpe1_base: read_u8(b, at + 58),
            cstate_control: read_u8(b, at + 59),
            p_level2_latency: read_u16(b, at + 60),
            p_level3_latency: read_u16(b, at + 62),
            flush_size: read_u16(b, at + 64),
            flush_stride: read_u16(b, at + 66),
            duty_offset: read_u8(b, at + 68),
            duty_width: read_u8(b, at + 69),
            day_alarm: read_u8(b, at + 70),
            month_alarm: read_u8(b, at + 71),
            century: read_u8(b, at + 72),
            iapc_boot_arch: read_u16(b, at + 73),
            reserved2: read_u8(b, at + 75),
            flags: read_u32(b, at + 76),
            reset_reg: ApicGenericAddress::from_bytes(b, at + 80),
            reset_value: read_u8(b, at + 92),
            arm_boot_arch: read_u16(b, at + 93),
            fadt_minor_version: read_u8(b, at + 95),
            x_firmware_control: read_u64(b, at + 96),
            x_dsdt: read_u64(b, at + 104),
            x_pm1a_event_block: ApicGenericAddress::from_bytes(b, at + 112),
            x_pm1b_event_block: ApicGenericAddress::from_bytes(b, at + 124),
            x_pm1a_control_block: ApicGenericAddress::from_bytes(b, at + 136),
            x_pm1b_control_block: ApicGenericAddress::from_bytes(b, at + 148),
            x_pm2_control_block: ApicGenericAddress::from_bytes(b, at + 160),
            x_pm_timer_block: ApicGenericAddress::from_bytes(b, at + 172),
            x_gpe0_block: ApicGenericAddress::from_bytes(b, at + 184),
            x_gpe1_block: ApicGenericAddress::from_bytes(b, at + 196),
            sleep_control_reg: ApicGenericAddress::from_bytes(b, at + 208),
            sleep_status_reg: ApicGenericAddress::from_bytes(b, at + 220),
            hypervisor_vendor_id: read_u64(b, at + 232),
        }
    }
}


/// The width of an I/O port access.
#[derive(Debug, Clone, Copy, PartialEq, Eq, Structural)]
pub enum PortWidth {
    Byte,
    Word,
    DWord,
}

/// A write of `value` to the I/O port `port`.
#[derive(Debug, Clone, Copy, PartialEq, Eq, Structural)]
pub struct PortWrite {
    pub port: u16,
    pub width: PortWidth,
    pub value: u32,
}

/// A read of the I/O port `port`.
#[derive(Debug, Clone, Copy, PartialEq, Eq, Structural)]
pub struct PortRead {
    pub port: u16,
    pub width: PortWidth,
}

/// A register number that is an I/O port other than zero and `0xFFFF`.
pub open spec fn valid_port(r: u32) -> bool {
    0 < r < 0xFFFF
}

/// The address is not given as a generic address structure.
pub open spec fn gas_zero(g: ApicGenericAddress) -> bool {
    g.address == 0 && g.address_space_id == 0 && g.register_bit_offset == 0 && g.register_bit_width == 0
        && g.reserved == 0
}

pub open spec fn width_of(length: u8) -> PortWidth {
    if length == 2 {
        PortWidth::Word
    } else {
        PortWidth::DWord
    }
}

/// The writes of a register of a register block: to its `register`, then
/// to the same register of the second block `alt` when there is one.
pub open spec fn io_writes(register: u32, alt: Option<u32>, length: u8, value: u32) -> Seq<PortWrite> {
    seq![PortWrite { port: register as u16, width: width_of(length), value }] + match alt {
        Some(a) => seq![PortWrite { port: a as u16, width: width_of(length), value }],
        None => Seq::empty(),
    }
}

/// The byte writes of a general-purpose event register: byte `i` of the
/// value to port `register + i`.
pub open spec fn gpe_writes(register: u32, length: u8, value: u32) -> Seq<PortWrite> {
    Seq::new(
        length as nat,
        |i: int| PortWrite { port: (register + i) as u16, width: PortWidth::Byte, value: (value >> (8 * i as u32)) & 0xff },
    )
}

/// The byte reads of a general-purpose event register.
pub open spec fn gpe_reads(register: u32, length: u8) -> Seq<PortRead> {
    Seq::new(length as nat, |i: int| PortRead { port: (register + i) as u16, width: PortWidth::Byte })
}

pub open spec fn alt_block(b: u32) -> Option<u32> {
    if b == 0 {
        None
    } else {
        Some(b)
    }
}

impl Facp {
    /// The interrupt of the system control interrupt.
    pub fn sci_interrupt(&self) -> (r: u8)
        requires
            0 < self.sci_interrupt < 256,
        ensures
            r == self.sci_interrupt,
    {
        self.sci_interrupt as u8
    }

    fn smi_command_port(&self) -> (r: u16)
        requires
            valid_port(self.smi_command_port),
        ensures
            r == self.smi_command_port,
    {
        self.smi_command_port as u16
    }

    /// Whether ACPI is enabled, by the value read from the PM1 control
    /// register.
    pub fn is_acpi_enabled(&self, pm1_control: u16) -> (r: bool)
        ensures
            r == (pm1_control & 1 != 0),
    {
        (pm1_control & 1) != 0
    }

    /// The write that enables ACPI, given the value read from the PM1
    /// control register; none when it is enabled already.
    pub fn enable_acpi(&self, pm1_control: u16) -> (r: Option<PortWrite>)
        requires
            pm1_control & 1 == 0 ==> valid_port(self.smi_command_port),
        ensures
            pm1_control & 1 != 0 ==> r is None,
            pm1_control & 1 == 0 ==> r == Some(
                PortWrite { port: self.smi_command_port as u16, width: PortWidth::Byte, value: self.acpi_enable as u32 },
            ),
    {
        if self.is_acpi_enabled(pm1_control) {
            return None;
        }
        Some(PortWrite { port: self.smi_command_port(), width: PortWidth::Byte, value: self.acpi_enable as u32 })
    }

    fn access_io_write(&self, register: u32, alt_register: Option<u32>, length: u8, value: u32) -> (r: Vec<PortWrite>)
        requires
            valid_port(register),
            alt_register matches Some(a) ==> valid_port(a),
            length == 2 || length == 4,
            length == 2 ==> value <= 0xffff,
        ensures
            r@ == io_writes(register, alt_register, length, value),
    {
        let width = if length == 2 {
            PortWidth::Word
        } else {
            PortWidth::DWord
        };
        let mut r: Vec<PortWrite> = Vec::new();
        r.push(PortWrite { port: register as u16, width, value });
        match alt_register {
            Some(a) => r.push(PortWrite { port: a as u16, width, value }),
            None => {},
        }
        assert(r@ =~= io_writes(register, alt_register, length, value));
        r
    }

    fn access_io_read(&self, register: u32, length: u8) -> (r: PortRead)
        requires
            valid_port(register),
            length == 2 || length == 4,
        ensures
            r == (PortRead { port: register as u16, width: width_of(length) }),
    {
        let width = if length == 2 {
            PortWidth::Word
        } else {
            PortWidth::DWord
        };
        PortRead { port: register as u16, width }
    }

    /// The writes that set the PM1 status register to `value`.
    pub fn write_pm1_status(&self, value: u16) -> (r: Vec<PortWrite>)
        requires
            gas_zero(self.x_pm1a_event_block),
            valid_port(self.pm1a_event_block),
            self.pm1b_event_block != 0 ==> valid_port(self.pm1b_event_block),
            self.pm1_event_length / 2 == 2 || self.pm1_event_length / 2 == 4,
        ensures
            r@ == io_writes(
                self.pm1a_event_block,
                alt_block(self.pm1b_event_block),
                self.pm1_event_length / 2,
                value as u32,
            ),
    {
        let part_len = self.pm1_event_length / 2;
        let alt = if self.pm1b_event_block == 0 {
            None
        } else {
            Some(self.pm1b_event_block)
        };
        self.access_io_write(self.pm1a_event_block, alt, part_len, value as u32)
    }

    /// The read of the PM1 status register.
    pub fn read_pm1_status(&self) -> (r: PortRead)
        requires
            gas_zero(self.x_pm1a_event_block),
            valid_port(self.pm1a_event_block),
            self.pm1_event_length / 2 == 2 || self.pm1_event_length / 2 == 4,
        ensures
            r == (PortRead { port: self.pm1a_event_block as u16, width: width_of(self.pm1_event_length / 2) }),
    {
        self.access_io_read(self.pm1a_event_block, self.pm1_event_length / 2)
    }

    /// The writes that set the PM1 enable register, which follows the
    /// status register in each block, to `value`.
    pub fn write_pm1_enable(&self, value: u16) -> (r: Vec<PortWrite>)
        requires
            gas_zero(self.x_pm1a_event_block),
            valid_port((self.pm1a_event_block + self.pm1_event_length / 2) as u32),
            self.pm1a_event_block + self.pm1_event_length / 2 <= u32::MAX,
            self.pm1b_event_block != 0 ==> valid_port((self.pm1b_event_block + self.pm1_event_length / 2) as u32)
                && self.pm1b_event_block + self.pm1_event_length / 2 <= u32::MAX,
            self.pm1_event_length / 2 == 2 || self.pm1_event_length / 2 == 4,
        ensures
            r@ == io_writes(
                (self.pm1a_event_block + self.pm1_event_length / 2) as u32,
                if self.pm1b_event_block == 0 {
                    None
                } else {
                    Some((self.pm1b_event_block + self.pm1_event_length / 2) as u32)
                },
                self.pm1_event_length / 2,
                value as u32,
            ),
    {
        let part_len = self.pm1_event_length / 2;
        let alt = if self.pm1b_event_block == 0 {
            None
        } else {
            Some(self.pm1b_event_block + part_len as u32)
        };
        self.access_io_write(self.pm1a_event_block + part_len as u32, alt, part_len, value as u32)
    }

    /// The read of the PM1 enable register.
    pub fn read_pm1_enable(&self) -> (r: PortRead)
        requires
            gas_zero(self.x_pm1a_event_block),
            self.pm1a_event_block + self.pm1_event_length / 2 <= u32::MAX,
            valid_port((self.pm1a_event_block + self.pm1_event_length / 2) as u32),
            self.pm1_event_length / 2 == 2 || self.pm1_event_length / 2 == 4,
        ensures
            r == (PortRead {
                port: (self.pm1a_event_block + self.pm1_event_length / 2) as u16,
                width: width_of(self.pm1_event_length / 2),
            }),
    {
        let part_len = self.pm1_event_length / 2;
        self.access_io_read(self.pm1a_event_block + part_len as u32, part_len)
    }

    /// The writes that set the PM1 control register to `value`.
    pub fn write_pm1_control(&self, value: u16) -> (r: Vec<PortWrite>)
        requires
            gas_zero(self.x_pm1a_control_block),
            valid_port(self.pm1a_control_block),
            self.pm1b_control_block != 0 ==> valid_port(self.pm1b_control_block),
            self.pm1_control_length == 2 || self.pm1_control_length == 4,
        ensures
            r@ == io_writes(
                self.pm1a_control_block,
                alt_block(self.pm1b_control_block),
                self.pm1_control_length,
                value as u32,
            ),
    {
        let alt = if self.pm1b_control_block == 0 {
            None
        } else {
            Some(self.pm1b_control_block)
        };
        self.access_io_write(self.pm1a_control_block, alt, self.pm1_control_length, value as u32)
    }

    /// The read of the PM1 control register.
    pub fn read_pm1_control(&self) -> (r: PortRead)
        requires
            gas_zero(self.x_pm1a_control_block),
            valid_port(self.pm1a_control_block),
            self.pm1_control_length == 2 || self.pm1_control_length == 4,
        ensures
            r == (PortRead { port: self.pm1a_control_block as u16, width: width_of(self.pm1_control_length) }),
    {
        self.access_io_read(self.pm1a_control_block, self.pm1_control_length)
    }

    /// The read of the power management timer; none when there is no timer.
    pub fn read_pm_timer(&self) -> (r: Option<PortRead>)
        requires
            gas_zero(self.x_pm_timer_block),
            self.pm_timer_block != 0 ==> valid_port(self.pm_timer_block) && self.pm_timer_length == 4,
        ensures
            self.pm_timer_block == 0 ==> r is None,
            self.pm_timer_block != 0 ==> r == Some(PortRead { port: self.pm_timer_block as u16, width: PortWidth::DWord }),
    {
        if self.pm_timer_block == 0 {
            return None;
        }
        Some(self.access_io_read(self.pm_timer_block, self.pm_timer_length))
    }

    /// The writes that set the PM2 control register to `value`; none when
    /// there is no such register.
    pub fn write_pm2_control(&self, value: u16) -> (r: Option<Vec<PortWrite>>)
        requires
            gas_zero(self.x_pm2_control_block),
            self.pm2_control_block != 0 ==> valid_port(self.pm2_control_block) && (self.pm2_control_length == 2
                || self.pm2_control_length == 4),
        ensures
            self.pm2_control_block == 0 ==> r is None,
            self.pm2_control_block != 0 ==> (r matches Some(v) && v@ == io_writes(
                self.pm2_control_block,
                Some(self.pm2_control_block),
                self.pm2_control_length,
                value as u32,
            )),
    {
        if self.pm2_control_block == 0 {
            return None;
        }
        Some(
            self.access_io_write(
                self.pm2_control_block,
                Some(self.pm2_control_block),
                self.pm2_control_length,
                value as u32,
            ),
        )
    }

    /// The read of the PM2 control register; none when there is no such
    /// register.
    pub fn read_pm2_control(&self) -> (r: Option<PortRead>)
        requires
            gas_zero(self.x_pm2_control_block),
            self.pm2_control_block != 0 ==> valid_port(self.pm2_control_block) && (self.pm2_control_length == 2
                || self.pm2_control_length == 4),
        ensures
            self.pm2_control_block == 0 ==> r is None,
            self.pm2_control_block != 0 ==> r == Some(
                PortRead { port: self.pm2_control_block as u16, width: width_of(self.pm2_control_length) },
            ),
    {
        if self.pm2_control_block == 0 {
            return None;
        }
        Some(self.access_io_read(self.pm2_control_block, self.pm2_control_length))
    }

    fn gpe_reg_write(register: u32, length: u8, value: u32) -> (r: Vec<PortWrite>)
        requires
            valid_port(register),
            length <= 4,
            register + length <= 0x10000,
        ensures
            r@ == gpe_writes(register, length, value),
    {
        let mut r: Vec<PortWrite> = Vec::new();
        let mut i: u8 = 0;
        while i < length
            invariant
                i <= length,
                length <= 4,
                valid_port(register),
                register + length <= 0x10000,
                r@ == gpe_writes(register, i, value),
            decreases length - i,
        {
            let port = (register as u16) + (i as u16);
            r.push(PortWrite { port, width: PortWidth::Byte, value: (value >> (8 * i as u32)) & 0xff });
            proof {
                assert(r@ =~= gpe_writes(register, (i + 1) as u8, value));
            }
            i = i + 1;
        }
        r
    }

    fn gpe_reg_read(register: u32, length: u8) -> (r: Vec<PortRead>)
        requires
            valid_port(register),
            length <= 4,
            register + length <= 0x10000,
        ensures
            r@ == gpe_reads(register, length),
    {
        let mut r: Vec<PortRead> = Vec::new();
        let mut i: u8 = 0;
        while i < length
            invariant
                i <= length,
                length <= 4,
                valid_port(register),
                register + length <= 0x10000,
                r@ == gpe_reads(register, i),
            decreases length - i,
        {
            let port = (register as u16) + (i as u16);
            r.push(PortRead { port, width: PortWidth::Byte });
            proof {
                assert(r@ =~= gpe_reads(register, (i + 1) as u8));
            }
            i = i + 1;
        }
        r
    }

    /// The value of a general-purpose event register from the bytes read
    /// from its ports: byte `i` is bits `8 i` to `8 i + 7`.
    pub fn gpe_combine(bytes: &[u8]) -> (r: u32)
        requires
            bytes@.len() <= 4,
        ensures
            r == le_at(bytes@, 0, bytes@.len() as int),
    {
        let n = bytes.len();
        let v = crate::bytes::read_le(bytes, 0, n);
        proof {
            crate::bytes::lemma_le_at_bound(bytes@, 0, n as int);
            crate::bytes::lemma_pow256_monotonic(n as int, 4);
            crate::bytes::lemma_pow256_values();
        }
        v as u32
    }

    /// The byte writes that set the status half of the first
    /// general-purpose event block to `value`; none when there is no block.
    pub fn write_gpe_0_event_status(&self, value: u32) -> (r: Option<Vec<PortWrite>>)
        requires
            gas_zero(self.x_gpe0_block),
            self.gpe0_block != 0 ==> valid_port(self.gpe0_block) && self.gpe0_block_length / 2 <= 4
                && self.gpe0_block + self.gpe0_block_length / 2 <= 0x10000,
        ensures
            self.gpe0_block == 0 ==> r is None,
            self.gpe0_block != 0 ==> (r matches Some(v) && v@ == gpe_writes(self.gpe0_block, self.gpe0_block_length / 2, value)),
    {
        if self.gpe0_block == 0 {
            return None;
        }
        Some(Self::gpe_reg_write(self.gpe0_block, self.gpe0_block_length / 2, value))
    }

    /// The byte reads of the status half of the first general-purpose
    /// event block; none when there is no block.
    pub fn read_gpe_0_event_status(&self) -> (r: Option<Vec<PortRead>>)
        requires
            gas_zero(self.x_gpe0_block),
            self.gpe0_block != 0 ==> valid_port(self.gpe0_block) && self.gpe0_block_length / 2 <= 4
                && self.gpe0_block + self.gpe0_block_length / 2 <= 0x10000,
        ensures
            self.gpe0_block == 0 ==> r is None,
            self.gpe0_block != 0 ==> (r matches Some(v) && v@ == gpe_reads(self.gpe0_block, self.gpe0_block_length / 2)),
    {
        if self.gpe0_block == 0 {
            return None;
        }
        Some(Self::gpe_reg_read(self.gpe0_block, self.gpe0_block_length / 2))
    }

    /// The byte writes that set the enable half of the first
    /// general-purpose event block to `value`; none when there is no block.
    pub fn write_gpe_0_event_enable(&self, value: u16) -> (r: Option<Vec<PortWrite>>)
        requires
            gas_zero(self.x_gpe0_block),
            self.gpe0_block != 0 ==> valid_port((self.gpe0_block + self.gpe0_block_length / 2) as u32)
                && self.gpe0_block_length / 2 <= 4 && self.gpe0_block + 2 * (self.gpe0_block_length / 2) <= 0x10000,
        ensures
            self.gpe0_block == 0 ==> r is None,
            self.gpe0_block != 0 ==> (r matches Some(v) && v@ == gpe_writes(
                (self.gpe0_block + self.gpe0_block_length / 2) as u32,
                self.gpe0_block_length / 2,
                value as u32,
            )),
    {
        if self.gpe0_block == 0 {
            return None;
        }
        let half = self.gpe0_block_length / 2;
        Some(Self::gpe_reg_write(self.gpe0_block + half as u32, half, value as u32))
    }

    /// The byte reads of the enable half of the first general-purpose event
    /// block; none when there is no block.
    pub fn read_gpe_0_event_enable(&self) -> (r: Option<Vec<PortRead>>)
        requires
            gas_zero(self.x_gpe0_block),
            self.gpe0_block != 0 ==> valid_port((self.gpe0_block + self.gpe0_block_length / 2) as u32)
                && self.gpe0_block_length / 2 <= 4 && self.gpe0_block + 2 * (self.gpe0_block_length / 2) <= 0x10000,
        ensures
            self.gpe0_block == 0 ==> r is None,
            self.gpe0_block != 0 ==> (r matches Some(v) && v@ == gpe_reads(
                (self.gpe0_block + self.gpe0_block_length / 2) as u32,
                self.gpe0_block_length / 2,
            )),
    {
        if self.gpe0_block == 0 {
            return None;
        }
        let half = self.gpe0_block_length / 2;
        Some(Self::gpe_reg_read(self.gpe0_block + half as u32, half))
    }
}

} // verus!
