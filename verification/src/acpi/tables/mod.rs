//! ACPI description tables, decoded from their bytes.
//!
//! Reading the tables out of physical memory is left to the caller; this
//! module finds the root pointer in a memory image, checks checksums, and
//! decodes table bodies.

pub mod facp;

use vstd::prelude::*;
use crate::bytes::{
    byte_sum, bytes_to_vec, le_at, padded, pad_bytes, read_array16, read_array3, read_array4, read_array6,
    read_array8, read_u16, read_u32, read_u64, read_u8, sum_bytes,
};
use super::aml::Aml;
use super::aml::parser::AmlParseError;
pub use facp::Facp;

verus! {

/// The first part of the root system description pointer (20 bytes).
#[derive(Debug, Clone, Copy)]
pub struct RsdpV1 {
    pub signature: [u8; 8],
    pub checksum: u8,
    pub oem_id: [u8; 6],
    pub revision: u8,
    pub rsdt_address: u32,
}

impl RsdpV1 {
    /// The structure holds the little-endian fields of `s` at `at`.
    pub open spec fn decoded_from(self, s: Seq<u8>, at: int) -> bool {
        &&& self.signature@ == s.subrange(at + 0, at + 8)
        &&& self.checksum == le_at(s, at + 8, 1)
        &&& self.oem_id@ == s.subrange(at + 9, at + 15)
        &&& self.revision == le_at(s, at + 15, 1)
        &&& self.rsdt_address == le_at(s, at + 16, 4)
    }

    /// Decodes the structure from the bytes of `b` at `at`.
    pub fn from_bytes(b: &[u8], at: usize) -> (r: Self)
        requires
            at + 20 <= b@.len(),
        ensures
            r.decoded_from(b@, at as int),
    {
        let _len = b.len();
        RsdpV1 {
            signature: read_array8(b, at + 0),
            checksum: read_u8(b, at + 8),
            oem_id: read_array6(b, at + 9),
            revision: read_u8(b, at + 15),
            rsdt_address: read_u32(b, at + 16),
        }
    }
}

/// The header of every description table (36 bytes).
#[derive(Debug, Clone, Copy)]
pub struct DescriptionHeader {
    pub signature: [u8; 4],
    pub length: u32,
    pub revision: u8,
    pub checksum: u8,
    pub oem_id: [u8; 6],
    pub oem_table_id: [u8; 8],
    pub oem_revision: u32,
    pub creator_id: u32,
    pub creator_revision: u32,
}

impl DescriptionHeader {
    /// The structure holds the little-endian fields of `s` at `at`.
    pub open spec fn decoded_from(self, s: Seq<u8>, at: int) -> bool {
        &&& self.signature@ == s.subrange(at + 0, at + 4)
        &&& self.length == le_at(s, at + 4, 4)
        &&& self.revision == le_at(s, at + 8, 1)
        &&& self.checksum == le_at(s, at + 9, 1)
        &&& self.oem_id@ == s.subrange(at + 10, at + 16)
        &&& self.oem_table_id@ == s.subrange(at + 16, at + 24)
        &&& self.oem_revision == le_at(s, at + 24, 4)
        &&& self.creator_id == le_at(s, at + 28, 4)
        &&& self.creator_revision == le_at(s, at + 32, 4)
    }

    /// Decodes the structure from the bytes of `b` at `at`.
    pub fn from_bytes(b: &[u8], at: usize) -> (r: Self)
        requires
            at + 36 <= b@.len(),
        ensures
            r.decoded_from(b@, at as int),
    {
        let _len = b.len();
        DescriptionHeader {
            signature: read_array4(b, at + 0),
            length: read_u32(b, at + 4),
            revision: read_u8(b, at + 8),
            checksum: read_u8(b, at + 9),
            oem_id: read_array6(b, at + 10),
            oem_table_id: read_array8(b, at + 16),
            oem_revision: read_u32(b, at + 24),
            creator_id: read_u32(b, at + 28),
            creator_revision: read_u32(b, at + 32),
        }
    }
}

#[derive(Debug, Clone, Copy)]
pub struct ProcessorLocalApic {
    pub acpi_processor_id: u8,
    pub apic_id: u8,
    pub flags: u32,
}

impl ProcessorLocalApic {
    /// The structure holds the little-endian fields of `s` at `at`.
    pub open spec fn decoded_from(self, s: Seq<u8>, at: int) -> bool {
        &&& self.acpi_processor_id == le_at(s, at + 0, 1)
        &&& self.apic_id == le_at(s, at + 1, 1)
        &&& self.flags == le_at(s, at + 2, 4)
    }

    /// Decodes the structure from the bytes of `b` at `at`.
    pub fn from_bytes(b: &[u8], at: usize) -> (r: Self)
        requires
            at + 6 <= b@.len(),
        ensures
            r.decoded_from(b@, at as int),
    {
        let _len = b.len();
        ProcessorLocalApic {
            acpi_processor_id: read_u8(b, at + 0),
            apic_id: read_u8(b, at + 1),
            flags: read_u32(b, at + 2),
        }
    }
}

#[derive(Debug, Clone, Copy)]
pub struct IoApic {
    pub io_apic_id: u8,
    pub reserved: u8,
    pub io_apic_address: u32,
    pub global_system_interrupt_base: u32,
}

impl IoApic {
    /// The structure holds the little-endian fields of `s` at `at`.
    pub open spec fn decoded_from(self, s: Seq<u8>, at: int) -> bool {
        &&& self.io_apic_id == le_at(s, at + 0, 1)
        &&& self.reserved == le_at(s, at + 1, 1)
        &&& self.io_apic_address == le_at(s, at + 2, 4)
        &&& self.global_system_interrupt_base == le_at(s, at + 6, 4)
    }

    /// Decodes the structure from the bytes of `b` at `at`.
    pub fn from_bytes(b: &[u8], at: usize) -> (r: Self)
        requires
            at + 10 <= b@.len(),
        ensures
            r.decoded_from(b@, at as int),
    {
        let _len = b.len();
        IoApic {
            io_apic_id: read_u8(b, at + 0),
            reserved: read_u8(b, at + 1),
            io_apic_address: read_u32(b, at + 2),
            global_system_interrupt_base: read_u32(b, at + 6),
        }
    }
}

#[derive(Debug, Clone, Copy)]
pub struct InterruptSourceOverride {
    pub bus: u8,
    pub source: u8,
    pub global_system_interrupt: u32,
    pub flags: u16,
}

impl InterruptSourceOverride {
    /// The structure holds the little-endian fields of `s` at `at`.
    pub open spec fn decoded_from(self, s: Seq<u8>, at: int) -> bool {
        &&& self.bus == le_at(s, at + 0, 1)
        &&& self.source == le_at(s, at + 1, 1)
        &&& self.global_system_interrupt == le_at(s, at + 2, 4)
        &&& self.flags == le_at(s, at + 6, 2)
    }

    /// Decodes the structure from the bytes of `b` at `at`.
    pub fn from_bytes(b: &[u8], at: usize) -> (r: Self)
        requires
            at + 8 <= b@.len(),
        ensures
            r.decoded_from(b@, at as int),
    {
        let _len = b.len();
        InterruptSourceOverride {
            bus: read_u8(b, at + 0),
            source: read_u8(b, at + 1),
            global_system_interrupt: read_u32(b, at + 2),
            flags: read_u16(b, at + 6),
        }
    }
}

#[derive(Debug, Clone, Copy)]
pub struct NonMaskableInterrupt {
    pub flags: u16,
    pub global_system_interrupt: u32,
}

impl NonMaskableInterrupt {
    /// The structure holds the little-endian fields of `s` at `at`.
    pub open spec fn decoded_from(self, s: Seq<u8>, at: int) -> bool {
        &&& self.flags == le_at(s, at + 0, 2)
        &&& self.global_system_interrupt == le_at(s, at + 2, 4)
    }

    /// Decodes the structure from the bytes of `b` at `at`.
    pub fn from_bytes(b: &[u8], at: usize) -> (r: Self)
        requires
            at + 6 <= b@.len(),
        ensures
            r.decoded_from(b@, at as int),
    {
        let _len = b.len();
        NonMaskableInterrupt {
            flags: read_u16(b, at + 0),
            global_system_interrupt: read_u32(b, at + 2),
        }
    }
}

#[derive(Debug, Clone, Copy)]
pub struct LocalApicNmi {
    pub acpi_processor_uid: u8,
    pub flags: u16,
    pub local_apic_lint: u8,
}

impl LocalApicNmi {
    /// The structure holds the little-endian fields of `s` at `at`.
    pub open spec fn decoded_from(self, s: Seq<u8>, at: int) -> bool {
        &&& self.acpi_processor_uid == le_at(s, at + 0, 1)
        &&& self.flags == le_at(s, at + 1, 2)
        &&& self.local_apic_lint == le_at(s, at + 3, 1)
    }

    /// Decodes the structure from the bytes of `b` at `at`.
    pub fn from_bytes(b: &[u8], at: usize) -> (r: Self)
        requires
            at + 4 <= b@.len(),
        ensures
            r.decoded_from(b@, at as int),
    {
        let _len = b.len();
        LocalApicNmi {
            acpi_processor_uid: read_u8(b, at + 0),
            flags: read_u16(b, at + 1),
            local_apic_lint: read_u8(b, at + 3),
        }
    }
}

#[derive(Debug, Clone, Copy)]
pub struct LocalApicAddressOverride {
    pub reserved: u16,
    pub local_apic_address: u64,
}

impl LocalApicAddressOverride {
    /// The structure holds the little-endian fields of `s` at `at`.
    pub open spec fn decoded_from(self, s: Seq<u8>, at: int) -> bool {
        &&& self.reserved == le_at(s, at + 0, 2)
        &&& self.local_apic_address == le_at(s, at + 2, 8)
    }

    /// Decodes the structure from the bytes of `b` at `at`.
    pub fn from_bytes(b: &[u8], at: usize) -> (r: Self)
        requires
            at + 10 <= b@.len(),
        ensures
            r.decoded_from(b@, at as int),
    {
        let _len = b.len();
        LocalApicAddressOverride {
            reserved: read_u16(b, at + 0),
            local_apic_address: read_u64(b, at + 2),
        }
    }
}

/// A generic address structure (12 bytes).
#[derive(Debug, Clone, Copy)]
pub struct ApicGenericAddress {
    pub address_space_id: u8,
    pub register_bit_width: u8,
    pub register_bit_offset: u8,
    pub reserved: u8,
    pub address: u64,
}

impl ApicGenericAddress {
    /// The structure holds the little-endian fields of `s` at `at`.
    pub open spec fn decoded_from(self, s: Seq<u8>, at: int) -> bool {
        &&& self.address_space_id == le_at(s, at + 0, 1)
        &&& self.register_bit_width == le_at(s, at + 1, 1)
        &&& self.register_bit_offset == le_at(s, at + 2, 1)
        &&& self.reserved == le_at(s, at + 3, 1)
        &&& self.address == le_at(s, at + 4, 8)
    }

    /// Decodes the structure from the bytes of `b` at `at`.
    pub fn from_bytes(b: &[u8], at: usize) -> (r: Self)
        requires
            at + 12 <= b@.len(),
        ensures
            r.decoded_from(b@, at as int),
    {
        let _len = b.len();
        ApicGenericAddress {
            address_space_id: read_u8(b, at + 0),
            register_bit_width: read_u8(b, at + 1),
            register_bit_offset: read_u8(b, at + 2),
            reserved: read_u8(b, at + 3),
            address: read_u64(b, at + 4),
        }
    }
}

/// The HPET description table body (20 bytes).
#[derive(Debug, Clone, Copy)]
pub struct Hpet {
    pub event_timer_block_id: u32,
    pub base_address: ApicGenericAddress,
    pub hpet_number: u8,
    pub main_counter_minimum_clock_tick: u16,
    pub page_protection: u8,
}

impl Hpet {
    /// The structure holds the little-endian fields of `s` at `at`.
    pub open spec fn decoded_from(self, s: Seq<u8>, at: int) -> bool {
        &&& self.event_timer_block_id == le_at(s, at + 0, 4)
        &&& self.base_address.decoded_from(s, at + 4)
        &&& self.hpet_number == le_at(s, at + 16, 1)
        &&& self.main_counter_minimum_clock_tick == le_at(s, at + 17, 2)
        &&& self.page_protection == le_at(s, at + 19, 1)
    }

    /// Decodes the structure from the bytes of `b` at `at`.
    pub fn from_bytes(b: &[u8], at: usize) -> (r: Self)
        requires
            at + 20 <= b@.len(),
        ensures
            r.decoded_from(b@, at as int),
    {
        let _len = b.len();
        Hpet {
            event_timer_block_id: read_u32(b, at + 0),
            base_address: ApicGenericAddress::from_bytes(b, at + 4),
            hpet_number: read_u8(b, at + 16),
            main_counter_minimum_clock_tick: read_u16(b, at + 17),
            page_protection: read_u8(b, at + 19),
        }
    }
}

/// The boot graphics resource table body (20 bytes).
#[derive(Debug, Clone, Copy)]
pub struct Bgrt {
    pub version: u16,
    pub status: u8,
    pub image_type: u8,
    pub image_address: u64,
    pub image_offset_x: u32,
    pub image_offset_y: u32,
}

impl Bgrt {
    /// The structure holds the little-endian fields of `s` at `at`.
    pub open spec fn decoded_from(self, s: Seq<u8>, at: int) -> bool {
        &&& self.version == le_at(s, at + 0, 2)
        &&& self.status == le_at(s, at + 2, 1)
        &&& self.image_type == le_at(s, at + 3, 1)
        &&& self.image_address == le_at(s, at + 4, 8)
        &&& self.image_offset_x == le_at(s, at + 12, 4)
        &&& self.image_offset_y == le_at(s, at + 16, 4)
    }

    /// Decodes the structure from the bytes of `b` at `at`.
    pub fn from_bytes(b: &[u8], at: usize) -> (r: Self)
        requires
            at + 20 <= b@.len(),
        ensures
            r.decoded_from(b@, at as int),
    {
        let _len = b.len();
        Bgrt {
            version: read_u16(b, at + 0),
            status: read_u8(b, at + 2),
            image_type: read_u8(b, at + 3),
            image_address: read_u64(b, at + 4),
            image_offset_x: read_u32(b, at + 12),
            image_offset_y: read_u32(b, at + 16),
        }
    }
}

/// The emulated device table body (4 bytes).
#[derive(Debug, Clone, Copy)]
pub struct Waet {
    pub emulated_device_flags: u32,
}

impl Waet {
    /// The structure holds the little-endian fields of `s` at `at`.
    pub open spec fn decoded_from(self, s: Seq<u8>, at: int) -> bool {
        &&& self.emulated_device_flags == le_at(s, at + 0, 4)
    }

    /// Decodes the structure from the bytes of `b` at `at`.
    pub fn from_bytes(b: &[u8], at: usize) -> (r: Self)
        requires
            at + 4 <= b@.len(),
        ensures
            r.decoded_from(b@, at as int),
    {
        let _len = b.len();
        Waet {
            emulated_device_flags: read_u32(b, at + 0),
        }
    }
}

#[derive(Debug, Clone, Copy)]
pub struct ProcessorLocalAcpiAffinity {
    pub proximity_domain_low: u8,
    pub apic_id: u8,
    pub flags: u32,
    pub local_sapic_eid: u8,
    pub proximity_domain_high: [u8; 3],
    pub clock_domain: u32,
}

impl ProcessorLocalAcpiAffinity {
    /// The structure holds the little-endian fields of `s` at `at`.
    pub open spec fn decoded_from(self, s: Seq<u8>, at: int) -> bool {
        &&& self.proximity_domain_low == le_at(s, at + 0, 1)
        &&& self.apic_id == le_at(s, at + 1, 1)
        &&& self.flags == le_at(s, at + 2, 4)
        &&& self.local_sapic_eid == le_at(s, at + 6, 1)
        &&& self.proximity_domain_high@ == s.subrange(at + 7, at + 10)
        &&& self.clock_domain == le_at(s, at + 10, 4)
    }

    /// Decodes the structure from the bytes of `b` at `at`.
    pub fn from_bytes(b: &[u8], at: usize) -> (r: Self)
        requires
            at + 14 <= b@.len(),
        ensures
            r.decoded_from(b@, at as int),
    {
        let _len = b.len();
        ProcessorLocalAcpiAffinity {
            proximity_domain_low: read_u8(b, at + 0),
            apic_id: read_u8(b, at + 1),
            flags: read_u32(b, at + 2),
            local_sapic_eid: read_u8(b, at + 6),
            proximity_domain_high: read_array3(b, at + 7),
            clock_domain: read_u32(b, at + 10),
        }
    }
}

#[derive(Debug, Clone, Copy)]
pub struct MemoryAffinity {
    pub proximity_domain: u32,
    pub reserved1: u16,
    pub base_address_low: u32,
    pub base_address_high: u32,
    pub length_low: u32,
    pub length_high: u32,
    pub reserved2: u32,
    pub flags: u32,
    pub reserved3: u64,
}

impl MemoryAffinity {
    /// The structure holds the little-endian fields of `s` at `at`.
    pub open spec fn decoded_from(self, s: Seq<u8>, at: int) -> bool {
        &&& self.proximity_domain == le_at(s, at + 0, 4)
        &&& self.reserved1 == le_at(s, at + 4, 2)
        &&& self.base_address_low == le_at(s, at + 6, 4)
        &&& self.base_address_high == le_at(s, at + 10, 4)
        &&& self.length_low == le_at(s, at + 14, 4)
        &&& self.length_high == le_at(s, at + 18, 4)
        &&& self.reserved2 == le_at(s, at + 22, 4)
        &&& self.flags == le_at(s, at + 26, 4)
        &&& self.reserved3 == le_at(s, at + 30, 8)
    }

    /// Decodes the structure from the bytes of `b` at `at`.
    pub fn from_bytes(b: &[u8], at: usize) -> (r: Self)
        requires
            at + 38 <= b@.len(),
        ensures
            r.decoded_from(b@, at as int),
    {
        let _len = b.len();
        MemoryAffinity {
            proximity_domain: read_u32(b, at + 0),
            reserved1: read_u16(b, at + 4),
            base_address_low: read_u32(b, at + 6),
            base_address_high: read_u32(b, at + 10),
            length_low: read_u32(b, at + 14),
            length_high: read_u32(b, at + 18),
            reserved2: read_u32(b, at + 22),
            flags: read_u32(b, at + 26),
            reserved3: read_u64(b, at + 30),
        }
    }
}

#[derive(Debug, Clone, Copy)]
pub struct ProcessorLocalX2ApicAffinity {
    pub reserved1: u16,
    pub proximity_domain: u32,
    pub x2apic_id: u32,
    pub flags: u32,
    pub clock_domain: u32,
    pub reserved2: u32,
}

impl ProcessorLocalX2ApicAffinity {
    /// The structure holds the little-endian fields of `s` at `at`.
    pub open spec fn decoded_from(self, s: Seq<u8>, at: int) -> bool {
        &&& self.reserved1 == le_at(s, at + 0, 2)
        &&& self.proximity_domain == le_at(s, at + 2, 4)
        &&& self.x2apic_id == le_at(s, at + 6, 4)
        &&& self.flags == le_at(s, at + 10, 4)
        &&& self.clock_domain == le_at(s, at + 14, 4)
        &&& self.reserved2 == le_at(s, at + 18, 4)
    }

    /// Decodes the structure from the bytes of `b` at `at`.
    pub fn from_bytes(b: &[u8], at: usize) -> (r: Self)
        requires
            at + 22 <= b@.len(),
        ensures
            r.decoded_from(b@, at as int),
    {
        let _len = b.len();
        ProcessorLocalX2ApicAffinity {
            reserved1: read_u16(b, at + 0),
            proximity_domain: read_u32(b, at + 2),
            x2apic_id: read_u32(b, at + 6),
            flags: read_u32(b, at + 10),
            clock_domain: read_u32(b, at + 14),
            reserved2: read_u32(b, at + 18),
        }
    }
}

#[derive(Debug, Clone, Copy)]
pub struct GiccAffinity {
    pub proximity_domain: u32,
    pub acpi_processor_uid: u32,
    pub flags: u32,
    pub clock_domain: u32,
}

impl GiccAffinity {
    /// The structure holds the little-endian fields of `s` at `at`.
    pub open spec fn decoded_from(self, s: Seq<u8>, at: int) -> bool {
        &&& self.proximity_domain == le_at(s, at + 0, 4)
        &&& self.acpi_processor_uid == le_at(s, at + 4, 4)
        &&& self.flags == le_at(s, at + 8, 4)
        &&& self.clock_domain == le_at(s, at + 12, 4)
    }

    /// Decodes the structure from the bytes of `b` at `at`.
    pub fn from_bytes(b: &[u8], at: usize) -> (r: Self)
        requires
            at + 16 <= b@.len(),
        ensures
            r.decoded_from(b@, at as int),
    {
        let _len = b.len();
        GiccAffinity {
            proximity_domain: read_u32(b, at + 0),
            acpi_processor_uid: read_u32(b, at + 4),
            flags: read_u32(b, at + 8),
            clock_domain: read_u32(b, at + 12),
        }
    }
}

#[derive(Debug, Clone, Copy)]
pub struct GicInterruptTranslationServiceAffinity {
    pub proximity_domain: u32,
    pub reserved1: u16,
    pub its_id: u32,
}

impl GicInterruptTranslationServiceAffinity {
    /// The structure holds the little-endian fields of `s` at `at`.
    pub open spec fn decoded_from(self, s: Seq<u8>, at: int) -> bool {
        &&& self.proximity_domain == le_at(s, at + 0, 4)
        &&& self.reserved1 == le_at(s, at + 4, 2)
        &&& self.its_id == le_at(s, at + 6, 4)
    }

    /// Decodes the structure from the bytes of `b` at `at`.
    pub fn from_bytes(b: &[u8], at: usize) -> (r: Self)
        requires
            at + 10 <= b@.len(),
        ensures
            r.decoded_from(b@, at as int),
    {
        let _len = b.len();
        GicInterruptTranslationServiceAffinity {
            proximity_domain: read_u32(b, at + 0),
            reserved1: read_u16(b, at + 4),
            its_id: read_u32(b, at + 6),
        }
    }
}

#[derive(Debug, Clone, Copy)]
pub struct GenericInitiatorAffinity {
    pub reserved1: u8,
    pub device_handle_type: u8,
    pub proximity_domain: u32,
    pub device_handle: [u8; 16],
    pub flags: u32,
    pub reserved2: u32,
}

impl GenericInitiatorAffinity {
    /// The structure holds the little-endian fields of `s` at `at`.
    pub open spec fn decoded_from(self, s: Seq<u8>, at: int) -> bool {
        &&& self.reserved1 == le_at(s, at + 0, 1)
        &&& self.device_handle_type == le_at(s, at + 1, 1)
        &&& self.proximity_domain == le_at(s, at + 2, 4)
        &&& self.device_handle@ == s.subrange(at + 6, at + 22)
        &&& self.flags == le_at(s, at + 22, 4)
        &&& self.reserved2 == le_at(s, at + 26, 4)
    }

    /// Decodes the structure from the bytes of `b` at `at`.
    pub fn from_bytes(b: &[u8], at: usize) -> (r: Self)
        requires
            at + 30 <= b@.len(),
        ensures
            r.decoded_from(b@, at as int),
    {
        let _len = b.len();
        GenericInitiatorAffinity {
            reserved1: read_u8(b, at + 0),
            device_handle_type: read_u8(b, at + 1),
            proximity_domain: read_u32(b, at + 2),
            device_handle: read_array16(b, at + 6),
            flags: read_u32(b, at + 22),
            reserved2: read_u32(b, at + 26),
        }
    }
}

// ---------------------------------------------------------------------------
// Little-endian reads through `byteorder`

/// `byteorder::LittleEndian::read_u32`: the first four bytes of `buf` as a
/// little-endian `u32`. It panics on fewer than four bytes, which
/// `requires` leaves out.
#[verifier::external_body]
fn le_read_u32(buf: &[u8]) -> (r: u32)
    requires
        buf@.len() >= 4,
    ensures
        r == le_at(buf@, 0, 4),
{
    <byteorder::LittleEndian as byteorder::ByteOrder>::read_u32(buf)
}

/// `byteorder::LittleEndian::read_u64`: the first eight bytes of `buf` as a
/// little-endian `u64`. It panics on fewer than eight bytes, which
/// `requires` leaves out.
#[verifier::external_body]
fn le_read_u64(buf: &[u8]) -> (r: u64)
    requires
        buf@.len() >= 8,
    ensures
        r == le_at(buf@, 0, 8),
{
    <byteorder::LittleEndian as byteorder::ByteOrder>::read_u64(buf)
}

/// The bytes of `s` from `at` on, as a slice.
fn tail(s: &[u8], at: usize) -> (r: &[u8])
    requires
        at <= s@.len(),
    ensures
        r@ == s@.subrange(at as int, s@.len() as int),
{
    vstd::slice::slice_subrange(s, at, s.len())
}

proof fn lemma_le_at_shift(s: Seq<u8>, at: int, n: int)
    requires
        0 <= at,
        at + n <= s.len(),
    ensures
        le_at(s.subrange(at, s.len() as int), 0, n) == le_at(s, at, n),
    decreases n,
{
    if n > 0 {
        lemma_le_at_shift_from(s, at, 0, n);
    }
}

proof fn lemma_le_at_shift_from(s: Seq<u8>, at: int, k: int, n: int)
    requires
        0 <= at,
        0 <= k,
        at + k + n <= s.len(),
    ensures
        le_at(s.subrange(at, s.len() as int), k, n) == le_at(s, at + k, n),
    decreases n,
{
    if n > 0 {
        lemma_le_at_shift_from(s, at, k + 1, n - 1);
    }
}

// ---------------------------------------------------------------------------
// Root pointer

/// The whole root system description pointer (36 bytes), as revision 2 and
/// later lay it out.
#[derive(Debug, Clone, Copy)]
pub struct RsdpV2 {
    pub rsdp_v1: RsdpV1,
    pub length: u32,
    pub xsdt_address: u64,
    pub extended_checksum: u8,
    pub reserved: [u8; 3],
}

impl RsdpV2 {
    pub open spec fn decoded_from(self, s: Seq<u8>, at: int) -> bool {
        &&& self.rsdp_v1.decoded_from(s, at)
        &&& self.length == le_at(s, at + 20, 4)
        &&& self.xsdt_address == le_at(s, at + 24, 8)
        &&& self.extended_checksum == le_at(s, at + 32, 1)
        &&& self.reserved@ == s.subrange(at + 33, at + 36)
    }

    pub fn from_bytes(b: &[u8], at: usize) -> (r: Self)
        requires
            at + 36 <= b@.len(),
        ensures
            r.decoded_from(b@, at as int),
    {
        let _len = b.len();
        RsdpV2 {
            rsdp_v1: RsdpV1::from_bytes(b, at),
            length: read_u32(b, at + 20),
            xsdt_address: read_u64(b, at + 24),
            extended_checksum: read_u8(b, at + 32),
            reserved: read_array3(b, at + 33),
        }
    }
}

/// The root system description pointer, with the fields of revision 2.
#[derive(Debug, Clone, Copy)]
pub struct Rsdp {
    pub signature: [u8; 8],
    pub checksum: u8,
    pub oem_id: [u8; 6],
    pub revision: u8,
    pub rsdt_address: u32,
    pub length: u32,
    pub xsdt_address: u64,
    pub extended_checksum: u8,
    pub reserved: [u8; 3],
}

impl Rsdp {
    /// The pointer found at `at`: as revision 2 when its revision is 2 or
    /// more, else as revision 1 with the later fields zero.
    pub open spec fn decoded_from(self, mem: Seq<u8>, at: int) -> bool {
        &&& self.signature@ == mem.subrange(at, at + 8)
        &&& self.checksum == mem[at + 8]
        &&& self.oem_id@ == mem.subrange(at + 9, at + 15)
        &&& self.revision == mem[at + 15]
        &&& self.rsdt_address == le_at(mem, at + 16, 4)
        &&& self.revision >= 2 ==> self.length == le_at(mem, at + 20, 4) && self.xsdt_address == le_at(mem, at + 24, 8)
            && self.extended_checksum == mem[at + 32] && self.reserved@ == mem.subrange(at + 33, at + 36)
        &&& self.revision < 2 ==> self.length == 0 && self.xsdt_address == 0 && self.extended_checksum == 0
            && self.reserved@ == seq![0u8; 3]
    }

    /// A pointer with every field zero.
    pub fn empty() -> (r: Self)
        ensures
            r.signature@ == seq![0u8; 8],
            r.checksum == 0,
            r.oem_id@ == seq![0u8; 6],
            r.revision == 0,
            r.rsdt_address == 0,
            r.length == 0,
            r.xsdt_address == 0,
            r.extended_checksum == 0,
            r.reserved@ == seq![0u8; 3],
    {
        let r = Rsdp {
            signature: [0, 0, 0, 0, 0, 0, 0, 0],
            checksum: 0,
            oem_id: [0, 0, 0, 0, 0, 0],
            revision: 0,
            rsdt_address: 0,
            length: 0,
            xsdt_address: 0,
            extended_checksum: 0,
            reserved: [0, 0, 0],
        };
        assert(r.signature@ =~= seq![0u8; 8]);
        assert(r.oem_id@ =~= seq![0u8; 6]);
        assert(r.reserved@ =~= seq![0u8; 3]);
        r
    }

    /// The fields of a revision 1 pointer; the later fields are zero.
    pub fn from_v1(v0: &RsdpV1) -> (r: Self)
        ensures
            r.signature == v0.signature,
            r.checksum == v0.checksum,
            r.oem_id == v0.oem_id,
            r.revision == v0.revision,
            r.rsdt_address == v0.rsdt_address,
            r.length == 0,
            r.xsdt_address == 0,
            r.extended_checksum == 0,
            r.reserved@ == seq![0u8; 3],
    {
        let r = Rsdp {
            signature: v0.signature,
            checksum: v0.checksum,
            oem_id: v0.oem_id,
            revision: v0.revision,
            rsdt_address: v0.rsdt_address,
            length: 0,
            xsdt_address: 0,
            extended_checksum: 0,
            reserved: [0, 0, 0],
        };
        assert(r.reserved@ =~= seq![0u8; 3]);
        r
    }

    /// All fields of a revision 2 pointer.
    pub fn from_v2(v2: &RsdpV2) -> (r: Self)
        ensures
            r.signature == v2.rsdp_v1.signature,
            r.checksum == v2.rsdp_v1.checksum,
            r.oem_id == v2.rsdp_v1.oem_id,
            r.revision == v2.rsdp_v1.revision,
            r.rsdt_address == v2.rsdp_v1.rsdt_address,
            r.length == v2.length,
            r.xsdt_address == v2.xsdt_address,
            r.extended_checksum == v2.extended_checksum,
            r.reserved == v2.reserved,
    {
        Rsdp {
            signature: v2.rsdp_v1.signature,
            checksum: v2.rsdp_v1.checksum,
            oem_id: v2.rsdp_v1.oem_id,
            revision: v2.rsdp_v1.revision,
            rsdt_address: v2.rsdp_v1.rsdt_address,
            length: v2.length,
            xsdt_address: v2.xsdt_address,
            extended_checksum: v2.extended_checksum,
            reserved: v2.reserved,
        }
    }

    /// Decodes the pointer found at `at`: as revision 2 when its revision
    /// is 2 or more, else as revision 1.
    pub fn from_memory(mem: &[u8], at: usize) -> (r: Self)
        requires
            at + 36 <= mem@.len(),
        ensures
            r.decoded_from(mem@, at as int),
    {
        let v2 = RsdpV2::from_bytes(mem, at);
        proof {
            reveal_with_fuel(le_at, 2);
        }
        if v2.rsdp_v1.revision >= 2 {
            Rsdp::from_v2(&v2)
        } else {
            Rsdp::from_v1(&v2.rsdp_v1)
        }
    }
}

/// The signature `RSD PTR `.
pub open spec fn rsdp_signature() -> Seq<u8> {
    seq![0x52u8, 0x53, 0x44, 0x20, 0x50, 0x54, 0x52, 0x20]
}

/// A root pointer starts at `i`: its signature is there and its first
/// twenty bytes sum to zero.
pub open spec fn is_rsdp_at(mem: Seq<u8>, i: int) -> bool {
    &&& 0 <= i
    &&& i + 20 <= mem.len()
    &&& mem.subrange(i, i + 8) == rsdp_signature()
    &&& byte_sum(mem.subrange(i, i + 20)) == 0
}

/// The first position of a root pointer in a memory image.
pub fn find_rsdp(mem: &[u8]) -> (r: Option<usize>)
    ensures
        r matches Some(i) ==> is_rsdp_at(mem@, i as int) && forall|j: int| 0 <= j < i ==> !is_rsdp_at(mem@, j),
        r is None ==> forall|j: int| !is_rsdp_at(mem@, j),
{
    let n = mem.len();
    let sig: [u8; 8] = [0x52, 0x53, 0x44, 0x20, 0x50, 0x54, 0x52, 0x20];
    assert(sig@ =~= rsdp_signature());
    let mut i: usize = 0;
    while i < n && n - i >= 20
        invariant
            n == mem@.len(),
            i <= n,
            sig@ == rsdp_signature(),
            forall|j: int| 0 <= j < i ==> !is_rsdp_at(mem@, j),
        decreases n - i,
    {
        let mut k: usize = 0;
        while k < 8 && mem[i + k] == sig[k]
            invariant
                k <= 8,
                i + 20 <= n,
                n == mem@.len(),
                forall|j: int| 0 <= j < k ==> mem@[i + j] == sig@[j],
            decreases 8 - k,
        {
            k = k + 1;
        }
        if k == 8 {
            let window = vstd::slice::slice_subrange(mem, i, i + 20);
            assert(mem@.subrange(i as int, i + 8) =~= rsdp_signature());
            if sum_bytes(window) == 0 {
                return Some(i);
            }
        } else {
            assert(mem@.subrange(i as int, i + 8)[k as int] != rsdp_signature()[k as int]);
        }
        i = i + 1;
    }
    None
}

// ---------------------------------------------------------------------------
// Headers and checksums

/// Byte `i` of the little-endian encoding of `x`.
pub open spec fn le_byte(x: u64, i: u64) -> u8 {
    ((x >> (8 * i)) & 0xff) as u8
}

/// The 36 bytes of a header as it is laid out in memory.
pub open spec fn header_bytes(h: DescriptionHeader) -> Seq<u8> {
    h.signature@ + seq![
        le_byte(h.length as u64, 0),
        le_byte(h.length as u64, 1),
        le_byte(h.length as u64, 2),
        le_byte(h.length as u64, 3),
        h.revision,
        h.checksum,
    ] + h.oem_id@ + h.oem_table_id@ + seq![
        le_byte(h.oem_revision as u64, 0),
        le_byte(h.oem_revision as u64, 1),
        le_byte(h.oem_revision as u64, 2),
        le_byte(h.oem_revision as u64, 3),
        le_byte(h.creator_id as u64, 0),
        le_byte(h.creator_id as u64, 1),
        le_byte(h.creator_id as u64, 2),
        le_byte(h.creator_id as u64, 3),
        le_byte(h.creator_revision as u64, 0),
        le_byte(h.creator_revision as u64, 1),
        le_byte(h.creator_revision as u64, 2),
        le_byte(h.creator_revision as u64, 3),
    ]
}

fn push_le_u32(v: &mut Vec<u8>, x: u32)
    ensures
        final(v)@ == old(v)@ + seq![
            le_byte(x as u64, 0),
            le_byte(x as u64, 1),
            le_byte(x as u64, 2),
            le_byte(x as u64, 3),
        ],
{
    let y = x as u64;
    v.push((y & 0xff) as u8);
    v.push(((y >> 8) & 0xff) as u8);
    v.push(((y >> 16) & 0xff) as u8);
    v.push(((y >> 24) & 0xff) as u8);
    proof {
        crate::bits::lemma_u64(y);
        assert(old(v)@ + seq![
            le_byte(x as u64, 0),
            le_byte(x as u64, 1),
            le_byte(x as u64, 2),
            le_byte(x as u64, 3),
        ] =~= final(v)@);
    }
}

fn push_bytes(v: &mut Vec<u8>, b: &[u8])
    ensures
        final(v)@ == old(v)@ + b@,
{
    let mut i: usize = 0;
    while i < b.len()
        invariant
            i <= b@.len(),
            v@ == old(v)@ + b@.subrange(0, i as int),
        decreases b@.len() - i,
    {
        v.push(b[i]);
        i = i + 1;
        assert(v@ =~= old(v)@ + b@.subrange(0, i as int));
    }
    assert(b@.subrange(0, b@.len() as int) =~= b@);
}

impl DescriptionHeader {
    /// A header with every field zero.
    pub fn empty() -> (r: Self)
        ensures
            r.signature@ == seq![0u8; 4],
            r.length == 0,
            r.revision == 0,
            r.checksum == 0,
            r.oem_id@ == seq![0u8; 6],
            r.oem_table_id@ == seq![0u8; 8],
            r.oem_revision == 0,
            r.creator_id == 0,
            r.creator_revision == 0,
    {
        let r = DescriptionHeader {
            signature: [0, 0, 0, 0],
            length: 0,
            revision: 0,
            checksum: 0,
            oem_id: [0, 0, 0, 0, 0, 0],
            oem_table_id: [0, 0, 0, 0, 0, 0, 0, 0],
            oem_revision: 0,
            creator_id: 0,
            creator_revision: 0,
        };
        assert(r.signature@ =~= seq![0u8; 4]);
        assert(r.oem_id@ =~= seq![0u8; 6]);
        assert(r.oem_table_id@ =~= seq![0u8; 8]);
        r
    }

    /// The bytes of the header as it is laid out in memory.
    pub fn to_bytes(&self) -> (r: Vec<u8>)
        ensures
            r@ == header_bytes(*self),
    {
        let mut v: Vec<u8> = Vec::new();
        push_bytes(&mut v, self.signature.as_slice());
        push_le_u32(&mut v, self.length);
        v.push(self.revision);
        v.push(self.checksum);
        push_bytes(&mut v, self.oem_id.as_slice());
        push_bytes(&mut v, self.oem_table_id.as_slice());
        push_le_u32(&mut v, self.oem_revision);
        push_le_u32(&mut v, self.creator_id);
        push_le_u32(&mut v, self.creator_revision);
        assert(v@ =~= header_bytes(*self));
        v
    }

    /// The wrapping sum of the bytes of the header.
    pub fn sum(&self) -> (r: u8)
        ensures
            r == byte_sum(header_bytes(*self)),
    {
        let bytes = self.to_bytes();
        sum_bytes(bytes.as_slice())
    }
}

/// The checksum of a table: the bytes of its header and body sum to zero.
pub open spec fn table_checksum_ok(header: DescriptionHeader, body: Seq<u8>) -> bool {
    byte_sum(header_bytes(header) + body) == 0
}

/// Whether the bytes of a table's header and body sum to zero.
pub fn check_table_checksum(header: &DescriptionHeader, body: &[u8]) -> (r: bool)
    ensures
        r == table_checksum_ok(*header, body@),
{
    let mut all = header.to_bytes();
    push_bytes(&mut all, body);
    sum_bytes(all.as_slice()) == 0
}

/// The table addresses listed in the body of the root table: each group of
/// four bytes is a little-endian address; zero addresses are skipped.
pub open spec fn rsdt_addresses(body: Seq<u8>, k: int) -> Seq<u32>
    decreases body.len() - k,
{
    if k < 0 || k + 4 > body.len() {
        Seq::empty()
    } else {
        let a = le_at(body, k, 4);
        if a == 0 {
            rsdt_addresses(body, k + 4)
        } else {
            seq![a as u32] + rsdt_addresses(body, k + 4)
        }
    }
}

/// The non-zero table addresses listed in the body of the root table.
pub fn rsdt_entry_addresses(body: &[u8]) -> (r: Vec<u32>)
    requires
        body@.len() % 4 == 0,
    ensures
        r@ == rsdt_addresses(body@, 0),
{
    let n = body.len();
    let mut r: Vec<u32> = Vec::new();
    let mut k: usize = 0;
    while k < n
        invariant
            n == body@.len(),
            n % 4 == 0,
            k % 4 == 0,
            k <= n,
            rsdt_addresses(body@, 0) == r@ + rsdt_addresses(body@, k as int),
        decreases n - k,
    {
        let a = read_u32(body, k);
        let ghost r0 = r@;
        if a != 0 {
            r.push(a);
            assert(r0 + (seq![a] + rsdt_addresses(body@, k + 4)) =~= r@ + rsdt_addresses(body@, k + 4));
        }
        k = k + 4;
    }
    assert(rsdt_addresses(body@, n as int) =~= Seq::<u32>::empty());
    assert(r@ + Seq::<u32>::empty() =~= r@);
    r
}

// ---------------------------------------------------------------------------
// Tables with a list of entries

/// The size of an entry of a known type: of the interrupt controller list
/// when `apic`, else of the resource affinity list.
pub open spec fn entry_size(apic: bool, t: u8) -> Option<int> {
    if apic {
        if t == 0 {
            Some(6)
        } else if t == 1 {
            Some(10)
        } else if t == 2 {
            Some(8)
        } else if t == 3 {
            Some(6)
        } else if t == 4 {
            Some(4)
        } else if t == 5 {
            Some(10)
        } else {
            None
        }
    } else {
        if t == 0 {
            Some(14)
        } else if t == 1 {
            Some(38)
        } else if t == 2 {
            Some(22)
        } else if t == 3 {
            Some(16)
        } else if t == 4 {
            Some(10)
        } else if t == 5 {
            Some(30)
        } else {
            None
        }
    }
}

/// A list of entries, each a type byte, a length byte and `length - 2`
/// bytes, that fills `s`; the entries of a known type have that type's
/// size.
pub open spec fn entries_well_formed(s: Seq<u8>, apic: bool) -> bool
    decreases s.len(),
{
    if s.len() == 0 {
        true
    } else if s.len() < 2 {
        false
    } else {
        let len = s[1] as int;
        &&& 2 <= len <= s.len()
        &&& entry_size(apic, s[0]) matches Some(n) ==> n == len - 2
        &&& entries_well_formed(s.subrange(len, s.len() as int), apic)
    }
}

/// The entries of such a list, as type and bytes.
pub open spec fn entries(s: Seq<u8>) -> Seq<(u8, Seq<u8>)>
    decreases s.len(),
{
    if s.len() < 2 || (s[1] as int) < 2 || (s[1] as int) > s.len() {
        Seq::empty()
    } else {
        seq![(s[0], s.subrange(2, s[1] as int))] + entries(s.subrange(s[1] as int, s.len() as int))
    }
}

fn exec_entry_size(apic: bool, t: u8) -> (r: Option<usize>)
    ensures
        r matches Some(n) ==> entry_size(apic, t) == Some(n as int),
        r is None ==> entry_size(apic, t) is None,
{
    if t > 5 {
        None
    } else if apic {
        Some(if t == 0 { 6 } else if t == 1 { 10 } else if t == 2 { 8 } else if t == 3 { 6 } else if t == 4 { 4 } else { 10 })
    } else {
        Some(if t == 0 { 14 } else if t == 1 { 38 } else if t == 2 { 22 } else if t == 3 { 16 } else if t == 4 { 10 } else { 30 })
    }
}

/// Whether `s` is a list of entries as `entries_well_formed` says.
pub fn check_entries(s: &[u8], apic: bool) -> (r: bool)
    ensures
        r == entries_well_formed(s@, apic),
{
    let n = s.len();
    let mut pos: usize = 0;
    assert(s@.subrange(0, n as int) =~= s@);
    while pos < n
        invariant
            n == s@.len(),
            pos <= n,
            entries_well_formed(s@, apic) == entries_well_formed(s@.subrange(pos as int, n as int), apic),
        decreases n - pos,
    {
        let ghost rest = s@.subrange(pos as int, n as int);
        if n - pos < 2 {
            return false;
        }
        let t = s[pos];
        let len = s[pos + 1] as usize;
        assert(rest[0] == t && rest[1] as usize == len);
        if len < 2 || len > n - pos {
            return false;
        }
        match exec_entry_size(apic, t) {
            Some(expected) => {
                if expected != len - 2 {
                    return false;
                }
            },
            None => {},
        }
        assert(rest.subrange(len as int, rest.len() as int) =~= s@.subrange(pos + len, n as int));
        pos = pos + len;
    }
    assert(s@.subrange(n as int, n as int).len() == 0);
    true
}

// ---------------------------------------------------------------------------
// Interrupt controllers

/// An entry of the interrupt controller list.
#[derive(Debug)]
pub enum InterruptControllerStruct {
    ProcessorLocalApic(ProcessorLocalApic),
    IoApic(IoApic),
    InterruptSourceOverride(InterruptSourceOverride),
    NonMaskableInterrupt(NonMaskableInterrupt),
    LocalApicNmi(LocalApicNmi),
    LocalApicAddressOverride(LocalApicAddressOverride),
    Unknown { struct_type: u8, bytes: Vec<u8> },
}

impl InterruptControllerStruct {
    /// The entry decodes the type `t` and the bytes `b`.
    pub open spec fn decoded_from(self, t: u8, b: Seq<u8>) -> bool {
        match self {
            InterruptControllerStruct::ProcessorLocalApic(x) => t == 0 && x.decoded_from(b, 0),
            InterruptControllerStruct::IoApic(x) => t == 1 && x.decoded_from(b, 0),
            InterruptControllerStruct::InterruptSourceOverride(x) => t == 2 && x.decoded_from(b, 0),
            InterruptControllerStruct::NonMaskableInterrupt(x) => t == 3 && x.decoded_from(b, 0),
            InterruptControllerStruct::LocalApicNmi(x) => t == 4 && x.decoded_from(b, 0),
            InterruptControllerStruct::LocalApicAddressOverride(x) => t == 5 && x.decoded_from(b, 0),
            InterruptControllerStruct::Unknown { struct_type, bytes } => t > 5 && struct_type == t
                && bytes@ == b,
        }
    }

    pub fn from_type_and_bytes(struct_type: u8, bytes: &[u8]) -> (r: Self)
        requires
            entry_size(true, struct_type) matches Some(n) ==> bytes@.len() == n,
        ensures
            r.decoded_from(struct_type, bytes@),
    {
        match struct_type {
            0 => InterruptControllerStruct::ProcessorLocalApic(ProcessorLocalApic::from_bytes(bytes, 0)),
            1 => InterruptControllerStruct::IoApic(IoApic::from_bytes(bytes, 0)),
            2 => InterruptControllerStruct::InterruptSourceOverride(InterruptSourceOverride::from_bytes(bytes, 0)),
            3 => InterruptControllerStruct::NonMaskableInterrupt(NonMaskableInterrupt::from_bytes(bytes, 0)),
            4 => InterruptControllerStruct::LocalApicNmi(LocalApicNmi::from_bytes(bytes, 0)),
            5 => InterruptControllerStruct::LocalApicAddressOverride(LocalApicAddressOverride::from_bytes(bytes, 0)),
            _ => InterruptControllerStruct::Unknown { struct_type, bytes: bytes_to_vec(bytes) },
        }
    }
}

/// The multiple APIC description table body.
#[derive(Debug)]
pub struct Apic {
    pub local_apic_address: u32,
    pub flags: u32,
    pub interrupt_controller_structs: Vec<InterruptControllerStruct>,
}

impl Apic {
    /// The table decodes `body`: two little-endian words, then the entries.
    pub open spec fn decoded_from(self, body: Seq<u8>) -> bool {
        let es = entries(body.subrange(8, body.len() as int));
        &&& self.local_apic_address == le_at(body, 0, 4)
        &&& self.flags == le_at(body, 4, 4)
        &&& self.interrupt_controller_structs@.len() == es.len()
        &&& forall|i: int| 0 <= i < es.len() ==> #[trigger] self.interrupt_controller_structs@[i].decoded_from(es[i].0, es[i].1)
    }

    pub fn from_body_bytes(body: &[u8]) -> (r: Self)
        requires
            body@.len() >= 8,
            entries_well_formed(body@.subrange(8, body@.len() as int), true),
        ensures
            r.decoded_from(body@),
    {
        let local_apic_address = le_read_u32(body);
        let flags = le_read_u32(tail(body, 4));
        proof {
            lemma_le_at_shift(body@, 4, 4);
        }
        let n = body.len();
        let ghost all = entries(body@.subrange(8, n as int));
        let ghost mut done: Seq<(u8, Seq<u8>)> = Seq::empty();
        let mut structs: Vec<InterruptControllerStruct> = Vec::new();
        let mut pos: usize = 8;
        assert(done + all =~= all);
        while pos < n
            invariant
                n == body@.len(),
                8 <= pos <= n,
                entries_well_formed(body@.subrange(pos as int, n as int), true),
                all == done + entries(body@.subrange(pos as int, n as int)),
                structs@.len() == done.len(),
                forall|i: int| 0 <= i < done.len() ==> #[trigger] structs@[i].decoded_from(done[i].0, done[i].1),
            decreases n - pos,
        {
            let ghost rest = body@.subrange(pos as int, n as int);
            let t = body[pos];
            let len = body[pos + 1] as usize;
            assert(rest[0] == t && rest[1] as usize == len);
            let bytes = vstd::slice::slice_subrange(body, pos + 2, pos + len);
            assert(bytes@ =~= rest.subrange(2, len as int));
            let s = InterruptControllerStruct::from_type_and_bytes(t, bytes);
            structs.push(s);
            proof {
                assert(rest.subrange(len as int, rest.len() as int) =~= body@.subrange(pos + len, n as int));
                assert(entries(rest) =~= seq![(t, bytes@)] + entries(body@.subrange(pos + len, n as int)));
                done = done.push((t, bytes@));
                assert(all =~= done + entries(body@.subrange(pos + len, n as int)));
            }
            pos = pos + len;
        }
        assert(entries(body@.subrange(n as int, n as int)) =~= Seq::<(u8, Seq<u8>)>::empty());
        assert(done =~= all);
        Apic { local_apic_address, flags, interrupt_controller_structs: structs }
    }
}

impl ApicGenericAddress {
    /// Whether every field is zero.
    pub fn is_zero(&self) -> (r: bool)
        ensures
            r == (self.address == 0 && self.address_space_id == 0 && self.register_bit_offset == 0
                && self.register_bit_width == 0 && self.reserved == 0),
    {
        self.address == 0 && self.address_space_id == 0 && self.register_bit_offset == 0
            && self.register_bit_width == 0 && self.reserved == 0
    }
}

// ---------------------------------------------------------------------------
// Resource affinity

/// An entry of the resource affinity list.
#[derive(Debug)]
pub enum StaticResourceAffinity {
    ProcessorLocalAcpi(ProcessorLocalAcpiAffinity),
    MemoryAffinity(MemoryAffinity),
    ProcessorLocalX2Apic(ProcessorLocalX2ApicAffinity),
    GiccAffinity(GiccAffinity),
    GicInterruptTranslationService(GicInterruptTranslationServiceAffinity),
    GenericInitiatorAffinity(GenericInitiatorAffinity),
    Unknown { struct_type: u8, bytes: Vec<u8> },
}

impl StaticResourceAffinity {
    /// The entry decodes the type `t` and the bytes `b`.
    pub open spec fn decoded_from(self, t: u8, b: Seq<u8>) -> bool {
        match self {
            StaticResourceAffinity::ProcessorLocalAcpi(x) => t == 0 && x.decoded_from(b, 0),
            StaticResourceAffinity::MemoryAffinity(x) => t == 1 && x.decoded_from(b, 0),
            StaticResourceAffinity::ProcessorLocalX2Apic(x) => t == 2 && x.decoded_from(b, 0),
            StaticResourceAffinity::GiccAffinity(x) => t == 3 && x.decoded_from(b, 0),
            StaticResourceAffinity::GicInterruptTranslationService(x) => t == 4 && x.decoded_from(b, 0),
            StaticResourceAffinity::GenericInitiatorAffinity(x) => t == 5 && x.decoded_from(b, 0),
            StaticResourceAffinity::Unknown { struct_type, bytes } => t > 5 && struct_type == t
                && bytes@ == b,
        }
    }

    pub fn from_type_and_bytes(struct_type: u8, bytes: &[u8]) -> (r: Self)
        requires
            entry_size(false, struct_type) matches Some(n) ==> bytes@.len() == n,
        ensures
            r.decoded_from(struct_type, bytes@),
    {
        match struct_type {
            0 => StaticResourceAffinity::ProcessorLocalAcpi(ProcessorLocalAcpiAffinity::from_bytes(bytes, 0)),
            1 => StaticResourceAffinity::MemoryAffinity(MemoryAffinity::from_bytes(bytes, 0)),
            2 => StaticResourceAffinity::ProcessorLocalX2Apic(ProcessorLocalX2ApicAffinity::from_bytes(bytes, 0)),
            3 => StaticResourceAffinity::GiccAffinity(GiccAffinity::from_bytes(bytes, 0)),
            4 => StaticResourceAffinity::GicInterruptTranslationService(
                GicInterruptTranslationServiceAffinity::from_bytes(bytes, 0),
            ),
            5 => StaticResourceAffinity::GenericInitiatorAffinity(GenericInitiatorAffinity::from_bytes(bytes, 0)),
            _ => StaticResourceAffinity::Unknown { struct_type, bytes: bytes_to_vec(bytes) },
        }
    }
}

/// The system resource affinity table body.
#[derive(Debug)]
pub struct Srat {
    pub reserved1: u32,
    pub reserved2: u64,
    pub static_resource_allocation: Vec<StaticResourceAffinity>,
}

impl Srat {
    /// The table decodes `body`: a word and a double word, then the entries.
    pub open spec fn decoded_from(self, body: Seq<u8>) -> bool {
        let es = entries(body.subrange(12, body.len() as int));
        &&& self.reserved1 == le_at(body, 0, 4)
        &&& self.reserved2 == le_at(body, 4, 8)
        &&& self.static_resource_allocation@.len() == es.len()
        &&& forall|i: int| 0 <= i < es.len() ==> #[trigger] self.static_resource_allocation@[i].decoded_from(es[i].0, es[i].1)
    }

    pub fn from_body_bytes(body: &[u8]) -> (r: Self)
        requires
            body@.len() >= 12,
            entries_well_formed(body@.subrange(12, body@.len() as int), false),
        ensures
            r.decoded_from(body@),
    {
        let reserved1 = le_read_u32(body);
        let reserved2 = le_read_u64(tail(body, 4));
        proof {
            lemma_le_at_shift(body@, 4, 8);
        }
        let n = body.len();
        let ghost all = entries(body@.subrange(12, n as int));
        let ghost mut done: Seq<(u8, Seq<u8>)> = Seq::empty();
        let mut structs: Vec<StaticResourceAffinity> = Vec::new();
        let mut pos: usize = 12;
        assert(done + all =~= all);
        while pos < n
            invariant
                n == body@.len(),
                12 <= pos <= n,
                entries_well_formed(body@.subrange(pos as int, n as int), false),
                all == done + entries(body@.subrange(pos as int, n as int)),
                structs@.len() == done.len(),
                forall|i: int| 0 <= i < done.len() ==> #[trigger] structs@[i].decoded_from(done[i].0, done[i].1),
            decreases n - pos,
        {
            let ghost rest = body@.subrange(pos as int, n as int);
            let t = body[pos];
            let len = body[pos + 1] as usize;
            assert(rest[0] == t && rest[1] as usize == len);
            let bytes = vstd::slice::slice_subrange(body, pos + 2, pos + len);
            assert(bytes@ =~= rest.subrange(2, len as int));
            let s = StaticResourceAffinity::from_type_and_bytes(t, bytes);
            structs.push(s);
            proof {
                assert(rest.subrange(len as int, rest.len() as int) =~= body@.subrange(pos + len, n as int));
                assert(entries(rest) =~= seq![(t, bytes@)] + entries(body@.subrange(pos + len, n as int)));
                done = done.push((t, bytes@));
                assert(all =~= done + entries(body@.subrange(pos + len, n as int)));
            }
            pos = pos + len;
        }
        assert(entries(body@.subrange(n as int, n as int)) =~= Seq::<(u8, Seq<u8>)>::empty());
        assert(done =~= all);
        Srat { reserved1, reserved2, static_resource_allocation: structs }
    }
}

// ---------------------------------------------------------------------------
// Tables

/// The differentiated or a secondary system description table: AML code.
#[derive(Debug)]
pub struct Xsdt {
    pub aml: Aml,
}

impl Xsdt {
    /// Parses the body as AML code, as `Aml::parse` does.
    pub fn from_body_bytes(body: &[u8]) -> (r: Result<Self, AmlParseError>)
        ensures
            crate::acpi::aml::parse_outcome(
                body@,
                match r {
                    Ok(x) => Ok(x.aml),
                    Err(e) => Err(e),
                },
            ),
    {
        let aml = Aml::parse(body)?;
        Ok(Xsdt { aml })
    }
}

/// The body of a description table, by its signature.
#[derive(Debug)]
pub enum DescriptorTableBody {
    Apic(Box<Apic>),
    Facp(Box<Facp>),
    Hpet(Box<Hpet>),
    Dsdt(Box<Xsdt>),
    Ssdt(Box<Xsdt>),
    Bgrt(Box<Bgrt>),
    Waet(Box<Waet>),
    Srat(Box<Srat>),
    Unknown(Vec<u8>),
}

/// The kinds of tables that can be looked up.
#[derive(Debug, Clone, Copy, PartialEq, Eq, Structural)]
pub enum TableKind {
    Apic,
    Facp,
    Hpet,
    Dsdt,
    Ssdt,
    Bgrt,
    Waet,
    Srat,
}

pub open spec fn body_kind(b: DescriptorTableBody) -> Option<TableKind> {
    match b {
        DescriptorTableBody::Apic(_) => Some(TableKind::Apic),
        DescriptorTableBody::Facp(_) => Some(TableKind::Facp),
        DescriptorTableBody::Hpet(_) => Some(TableKind::Hpet),
        DescriptorTableBody::Dsdt(_) => Some(TableKind::Dsdt),
        DescriptorTableBody::Ssdt(_) => Some(TableKind::Ssdt),
        DescriptorTableBody::Bgrt(_) => Some(TableKind::Bgrt),
        DescriptorTableBody::Waet(_) => Some(TableKind::Waet),
        DescriptorTableBody::Srat(_) => Some(TableKind::Srat),
        DescriptorTableBody::Unknown(_) => None,
    }
}

/// Errors while decoding a table body.
#[derive(Debug, Clone, Copy)]
pub enum TableError {
    /// The body does not have the layout its signature calls for.
    MalformedBody,
    /// The AML code of the table does not parse.
    Aml(AmlParseError),
    /// The table does not lie within the memory image.
    OutOfImage,
    /// The bytes of the table do not sum to zero.
    BadChecksum,
    /// No root pointer in the memory image.
    NoRsdp,
}

/// A description table: its header and decoded body.
#[derive(Debug)]
pub struct DescriptorTable {
    pub header: DescriptionHeader,
    pub body: DescriptorTableBody,
}

pub open spec fn sig_apic() -> Seq<u8> { seq![0x41u8, 0x50, 0x49, 0x43] }
pub open spec fn sig_facp() -> Seq<u8> { seq![0x46u8, 0x41, 0x43, 0x50] }
pub open spec fn sig_hpet() -> Seq<u8> { seq![0x48u8, 0x50, 0x45, 0x54] }
pub open spec fn sig_dsdt() -> Seq<u8> { seq![0x44u8, 0x53, 0x44, 0x54] }
pub open spec fn sig_ssdt() -> Seq<u8> { seq![0x53u8, 0x53, 0x44, 0x54] }
pub open spec fn sig_bgrt() -> Seq<u8> { seq![0x42u8, 0x47, 0x52, 0x54] }
pub open spec fn sig_waet() -> Seq<u8> { seq![0x57u8, 0x41, 0x45, 0x54] }
pub open spec fn sig_srat() -> Seq<u8> { seq![0x53u8, 0x52, 0x41, 0x54] }

fn sig_is(sig: &[u8; 4], a: u8, b: u8, c: u8, d: u8) -> (r: bool)
    ensures
        r == (sig@ == seq![a, b, c, d]),
{
    let r = sig[0] == a && sig[1] == b && sig[2] == c && sig[3] == d;
    if r {
        assert(sig@ =~= seq![a, b, c, d]);
    } else {
        assert(sig@ != seq![a, b, c, d] ) by {
            if sig@ == seq![a, b, c, d] {
                assert(sig@[0] == a && sig@[1] == b && sig@[2] == c && sig@[3] == d);
            }
        }
    }
    r
}

/// What decoding the body of a table by its header's signature gives:
/// the known kinds by their layout, DSDT and SSDT as AML code, any other
/// signature as raw bytes.
pub open spec fn table_outcome(header: DescriptionHeader, body: Seq<u8>, r: Result<DescriptorTable, TableError>) -> bool {
    let sig = header.signature@;
    &&& r matches Ok(t) ==> t.header == header
    &&& sig == sig_apic() ==> (r is Ok <==> (body.len() >= 8 && entries_well_formed(body.subrange(8, body.len() as int), true)))
        && (r matches Ok(t) ==> t.body matches DescriptorTableBody::Apic(a) && a.decoded_from(body))
    &&& sig == sig_srat() ==> (r is Ok <==> (body.len() >= 12 && entries_well_formed(body.subrange(12, body.len() as int), false)))
        && (r matches Ok(t) ==> t.body matches DescriptorTableBody::Srat(a) && a.decoded_from(body))
    &&& sig == sig_facp() ==> (r is Ok <==> body.len() <= 240)
        && (r matches Ok(t) ==> t.body matches DescriptorTableBody::Facp(f) && f.decoded_from(padded(body, 240), 0))
    &&& sig == sig_hpet() ==> (r is Ok <==> body.len() <= 20)
        && (r matches Ok(t) ==> t.body matches DescriptorTableBody::Hpet(f) && f.decoded_from(padded(body, 20), 0))
    &&& sig == sig_bgrt() ==> (r is Ok <==> body.len() <= 20)
        && (r matches Ok(t) ==> t.body matches DescriptorTableBody::Bgrt(f) && f.decoded_from(padded(body, 20), 0))
    &&& sig == sig_waet() ==> (r is Ok <==> body.len() <= 4)
        && (r matches Ok(t) ==> t.body matches DescriptorTableBody::Waet(f) && f.decoded_from(padded(body, 4), 0))
    &&& sig == sig_dsdt() ==> crate::acpi::aml::parse_outcome(
        body,
        match r {
            Ok(t) => match t.body {
                DescriptorTableBody::Dsdt(x) => Ok(x.aml),
                _ => Err(AmlParseError::MalformedScope),
            },
            Err(TableError::Aml(e)) => Err(e),
            Err(_) => Err(AmlParseError::MalformedScope),
        },
    ) && (r matches Ok(t) ==> t.body is Dsdt) && (r matches Err(e) ==> e is Aml)
    &&& sig == sig_ssdt() ==> crate::acpi::aml::parse_outcome(
        body,
        match r {
            Ok(t) => match t.body {
                DescriptorTableBody::Ssdt(x) => Ok(x.aml),
                _ => Err(AmlParseError::MalformedScope),
            },
            Err(TableError::Aml(e)) => Err(e),
            Err(_) => Err(AmlParseError::MalformedScope),
        },
    ) && (r matches Ok(t) ==> t.body is Ssdt) && (r matches Err(e) ==> e is Aml)
    &&& !(sig == sig_apic() || sig == sig_srat() || sig == sig_facp() || sig == sig_hpet() || sig == sig_bgrt()
        || sig == sig_waet() || sig == sig_dsdt() || sig == sig_ssdt())
        ==> (r matches Ok(t) && t.body matches DescriptorTableBody::Unknown(v) && v@ == body)
    &&& r matches Err(e) ==> (e is MalformedBody || e is Aml)
}

impl DescriptorTable {
    /// Decodes the body of a table by the signature of its header. Fixed
    /// size bodies may be shorter than their structure; the missing bytes
    /// read as zero.
    pub fn from_header_and_body(header: DescriptionHeader, body: &[u8]) -> (r: Result<Self, TableError>)
        ensures
            table_outcome(header, body@, r),
    {
        let sig = &header.signature;
        let n = body.len();
        let body_value = if sig_is(sig, 0x41, 0x50, 0x49, 0x43) {
            if n < 8 || !check_entries(tail(body, 8), true) {
                return Err(TableError::MalformedBody);
            }
            DescriptorTableBody::Apic(Box::new(Apic::from_body_bytes(body)))
        } else if sig_is(sig, 0x53, 0x52, 0x41, 0x54) {
            if n < 12 || !check_entries(tail(body, 12), false) {
                return Err(TableError::MalformedBody);
            }
            DescriptorTableBody::Srat(Box::new(Srat::from_body_bytes(body)))
        } else if sig_is(sig, 0x46, 0x41, 0x43, 0x50) {
            if n > 240 {
                return Err(TableError::MalformedBody);
            }
            let full = pad_bytes(body, 240);
            DescriptorTableBody::Facp(Box::new(Facp::from_bytes(full.as_slice(), 0)))
        } else if sig_is(sig, 0x48, 0x50, 0x45, 0x54) {
            if n > 20 {
                return Err(TableError::MalformedBody);
            }
            let full = pad_bytes(body, 20);
            DescriptorTableBody::Hpet(Box::new(Hpet::from_bytes(full.as_slice(), 0)))
        } else if sig_is(sig, 0x42, 0x47, 0x52, 0x54) {
            if n > 20 {
                return Err(TableError::MalformedBody);
            }
            let full = pad_bytes(body, 20);
            DescriptorTableBody::Bgrt(Box::new(Bgrt::from_bytes(full.as_slice(), 0)))
        } else if sig_is(sig, 0x57, 0x41, 0x45, 0x54) {
            if n > 4 {
                return Err(TableError::MalformedBody);
            }
            let full = pad_bytes(body, 4);
            DescriptorTableBody::Waet(Box::new(Waet::from_bytes(full.as_slice(), 0)))
        } else if sig_is(sig, 0x44, 0x53, 0x44, 0x54) {
            match Xsdt::from_body_bytes(body) {
                Ok(x) => DescriptorTableBody::Dsdt(Box::new(x)),
                Err(e) => {
                    return Err(TableError::Aml(e));
                },
            }
        } else if sig_is(sig, 0x53, 0x53, 0x44, 0x54) {
            match Xsdt::from_body_bytes(body) {
                Ok(x) => DescriptorTableBody::Ssdt(Box::new(x)),
                Err(e) => {
                    return Err(TableError::Aml(e));
                },
            }
        } else {
            DescriptorTableBody::Unknown(bytes_to_vec(body))
        };
        Ok(DescriptorTable { header, body: body_value })
    }

    /// Reads and decodes the table at physical address `ptr` of a memory
    /// image.
    pub fn from_physical_ptr(mem: &[u8], ptr: u32) -> (r: Result<Self, TableError>)
        ensures
            table_at_outcome(mem@, ptr as int, r),
    {
        let (header, body) = get_acpi_table_bytes(mem, ptr)?;
        let r = DescriptorTable::from_header_and_body(header, body.as_slice());
        assert(header.decoded_from(mem@, ptr as int));
        r
    }
}

/// The table at `ptr` of a memory image (address 0 at index 0) lies in it:
/// its header, and the length the header gives, which covers the header.
pub open spec fn table_in_image(mem: Seq<u8>, ptr: int) -> bool {
    &&& ptr + 36 <= mem.len()
    &&& 36 <= le_at(mem, ptr + 4, 4)
    &&& ptr + le_at(mem, ptr + 4, 4) <= mem.len()
}

/// The body of the table at `ptr`: the bytes after its header, up to its
/// length.
pub open spec fn table_body_at(mem: Seq<u8>, ptr: int) -> Seq<u8> {
    mem.subrange(ptr + 36, ptr + le_at(mem, ptr + 4, 4))
}

/// The header and the body of the table at `ptr`, whose bytes must sum to
/// zero.
pub open spec fn table_bytes_outcome(mem: Seq<u8>, ptr: int, r: Result<(DescriptionHeader, Seq<u8>), TableError>) -> bool {
    if !table_in_image(mem, ptr) {
        r == Err::<(DescriptionHeader, Seq<u8>), TableError>(TableError::OutOfImage)
    } else {
        match r {
            Ok((h, b)) => h.decoded_from(mem, ptr) && b == table_body_at(mem, ptr) && table_checksum_ok(h, b),
            Err(e) => e == TableError::BadChecksum && forall|h: DescriptionHeader|
                #[trigger] h.decoded_from(mem, ptr) ==> !table_checksum_ok(h, table_body_at(mem, ptr)),
        }
    }
}

/// Reads the header and the body of the table at physical address `ptr`
/// of a memory image, and checks that its bytes sum to zero.
pub fn get_acpi_table_bytes(mem: &[u8], ptr: u32) -> (r: Result<(DescriptionHeader, Vec<u8>), TableError>)
    ensures
        table_bytes_outcome(
            mem@,
            ptr as int,
            match r {
                Ok((h, b)) => Ok((h, b@)),
                Err(e) => Err(e),
            },
        ),
{
    let n = mem.len();
    let at = ptr as usize;
    if at > n || n - at < 36 {
        return Err(TableError::OutOfImage);
    }
    let header = DescriptionHeader::from_bytes(mem, at);
    let len = header.length as usize;
    if len < 36 || len > n - at {
        return Err(TableError::OutOfImage);
    }
    let body = bytes_to_vec(vstd::slice::slice_subrange(mem, at + 36, at + len));
    if !check_table_checksum(&header, body.as_slice()) {
        proof {
            assert forall|h: DescriptionHeader| #[trigger] h.decoded_from(mem@, ptr as int) implies !table_checksum_ok(
                h,
                table_body_at(mem@, ptr as int),
            ) by {
                lemma_header_decoded_unique(h, header, mem@, ptr as int);
            }
        }
        return Err(TableError::BadChecksum);
    }
    Ok((header, body))
}

proof fn lemma_header_decoded_unique(a: DescriptionHeader, b: DescriptionHeader, s: Seq<u8>, at: int)
    requires
        a.decoded_from(s, at),
        b.decoded_from(s, at),
    ensures
        header_bytes(a) == header_bytes(b),
{
    assert(a.signature@ =~= b.signature@);
    assert(a.oem_id@ =~= b.oem_id@);
    assert(a.oem_table_id@ =~= b.oem_table_id@);
}

/// What reading the table at `ptr` gives: the outcome of decoding its body
/// by its header, or why its bytes could not be had.
pub open spec fn table_at_outcome(mem: Seq<u8>, ptr: int, r: Result<DescriptorTable, TableError>) -> bool {
    if !table_in_image(mem, ptr) {
        r == Err::<DescriptorTable, TableError>(TableError::OutOfImage)
    } else {
        ||| r == Err::<DescriptorTable, TableError>(TableError::BadChecksum) && forall|h: DescriptionHeader|
            #[trigger] h.decoded_from(mem, ptr) ==> !table_checksum_ok(h, table_body_at(mem, ptr))
        ||| exists|h: DescriptionHeader|
            #[trigger] h.decoded_from(mem, ptr) && table_checksum_ok(h, table_body_at(mem, ptr))
                && table_outcome(h, table_body_at(mem, ptr), r)
    }
}

/// The root system description table: its header and the tables it lists.
#[derive(Debug)]
pub struct Rsdt {
    pub header: DescriptionHeader,
    pub entries: Vec<DescriptorTable>,
}

impl Rsdt {
    /// A table with a zero header and no entries.
    pub fn empty() -> (r: Self)
        ensures
            r.entries@.len() == 0,
            r.header.length == 0,
            r.header.signature@ == seq![0u8; 4],
    {
        Rsdt { header: DescriptionHeader::empty(), entries: Vec::new() }
    }

    /// The body of the first listed table of the given kind.
    pub fn get_table(&self, kind: TableKind) -> (r: Option<&DescriptorTableBody>)
        ensures
            r matches Some(b) ==> exists|i: int|
                0 <= i < self.entries@.len() && self.entries@[i].body == *b && body_kind(*b) == Some(kind)
                    && forall|j: int| 0 <= j < i ==> body_kind(#[trigger] self.entries@[j].body) != Some(kind),
            r is None ==> forall|j: int| 0 <= j < self.entries@.len() ==> body_kind(#[trigger] self.entries@[j].body) != Some(kind),
    {
        let mut i: usize = 0;
        while i < self.entries.len()
            invariant
                i <= self.entries@.len(),
                forall|j: int| 0 <= j < i ==> body_kind(#[trigger] self.entries@[j].body) != Some(kind),
            decreases self.entries@.len() - i,
        {
            let b = &self.entries[i].body;
            let k = match b {
                DescriptorTableBody::Apic(_) => Some(TableKind::Apic),
                DescriptorTableBody::Facp(_) => Some(TableKind::Facp),
                DescriptorTableBody::Hpet(_) => Some(TableKind::Hpet),
                DescriptorTableBody::Dsdt(_) => Some(TableKind::Dsdt),
                DescriptorTableBody::Ssdt(_) => Some(TableKind::Ssdt),
                DescriptorTableBody::Bgrt(_) => Some(TableKind::Bgrt),
                DescriptorTableBody::Waet(_) => Some(TableKind::Waet),
                DescriptorTableBody::Srat(_) => Some(TableKind::Srat),
                DescriptorTableBody::Unknown(_) => None,
            };
            if k == Some(kind) {
                return Some(b);
            }
            i = i + 1;
        }
        None
    }

    /// The address of the DSDT named by the FACP, which the root table
    /// does not list itself; none if there is no FACP or it names none.
    pub fn dsdt_address(&self) -> (r: Option<u32>)
        ensures
            r matches Some(a) ==> a != 0 && exists|i: int|
                0 <= i < self.entries@.len() && (#[trigger] self.entries@[i].body matches DescriptorTableBody::Facp(f)
                    && f.dsdt == a),
            (forall|j: int| 0 <= j < self.entries@.len() ==> body_kind(#[trigger] self.entries@[j].body) != Some(
                TableKind::Facp,
            )) ==> r is None,
            forall|i: int|
                0 <= i < self.entries@.len() && (forall|j: int| 0 <= j < i ==> body_kind(#[trigger] self.entries@[j].body)
                    != Some(TableKind::Facp)) ==> (#[trigger] self.entries@[i].body matches DescriptorTableBody::Facp(f)
                    ==> r == (if f.dsdt != 0 { Some(f.dsdt) } else { None::<u32> })),
    {
        match self.get_table(TableKind::Facp) {
            Some(DescriptorTableBody::Facp(facp)) => {
                if facp.dsdt != 0 {
                    Some(facp.dsdt)
                } else {
                    None
                }
            },
            _ => None,
        }
    }
}

/// The addresses the root table at `rsdt` lists.
pub open spec fn root_addresses(mem: Seq<u8>, rsdt: u32) -> Seq<u32> {
    rsdt_addresses(table_body_at(mem, rsdt as int), 0)
}

/// Reading the root table at `rsdt` fails with `e`.
pub open spec fn root_fails(mem: Seq<u8>, rsdt: u32, e: TableError) -> bool {
    ||| !table_in_image(mem, rsdt as int) && e == TableError::OutOfImage
    ||| table_in_image(mem, rsdt as int) && e == TableError::BadChecksum && forall|h: DescriptionHeader|
        #[trigger] h.decoded_from(mem, rsdt as int) ==> !table_checksum_ok(h, table_body_at(mem, rsdt as int))
    ||| table_in_image(mem, rsdt as int) && e == TableError::MalformedBody && table_body_at(mem, rsdt as int).len()
        % 4 != 0
}

/// One of the tables the root lists, or the DSDT that a listed FACP names,
/// fails with `e`.
pub open spec fn listed_table_fails(mem: Seq<u8>, addrs: Seq<u32>, e: TableError) -> bool {
    ||| exists|k: int| 0 <= k < addrs.len() && table_at_outcome(mem, #[trigger] addrs[k] as int, Err(e))
    ||| exists|k: int, t: DescriptorTable|
        0 <= k < addrs.len() && #[trigger] table_at_outcome(mem, addrs[k] as int, Ok(t))
            && (t.body matches DescriptorTableBody::Facp(f) && f.dsdt != 0 && table_at_outcome(mem, f.dsdt as int, Err(e)))
}

/// `s` is the root table at `rsdt` with the tables it lists, in order,
/// and possibly one more: the DSDT that one of them, a FACP, names.
pub open spec fn rsdt_read_from(mem: Seq<u8>, rsdt: u32, s: Rsdt) -> bool {
    let addrs = root_addresses(mem, rsdt);
    &&& table_in_image(mem, rsdt as int)
    &&& s.header.decoded_from(mem, rsdt as int)
    &&& table_checksum_ok(s.header, table_body_at(mem, rsdt as int))
    &&& addrs.len() <= s.entries@.len() <= addrs.len() + 1
    &&& forall|k: int| 0 <= k < addrs.len() ==> table_at_outcome(mem, #[trigger] addrs[k] as int, Ok(s.entries@[k]))
    &&& s.entries@.len() == addrs.len() + 1 ==> exists|j: int|
        0 <= j < addrs.len() && (#[trigger] s.entries@[j].body matches DescriptorTableBody::Facp(f) && f.dsdt != 0
            && table_at_outcome(mem, f.dsdt as int, Ok(s.entries@[addrs.len() as int])))
}

/// Reading the root table at `rsdt`, or a table it leads to, fails with `e`.
pub open spec fn rsdt_read_fails(mem: Seq<u8>, rsdt: u32, e: TableError) -> bool {
    ||| root_fails(mem, rsdt, e)
    ||| table_in_image(mem, rsdt as int) && listed_table_fails(mem, root_addresses(mem, rsdt), e)
}

impl Rsdp {
    /// Reads the root table this pointer names from a memory image, every
    /// table it lists, in order, and then the DSDT named by the first FACP
    /// among them, which the root does not list.
    pub fn rdst(&self, mem: &[u8]) -> (r: Result<Rsdt, TableError>)
        ensures
            r matches Ok(s) ==> rsdt_read_from(mem@, self.rsdt_address, s),
            r matches Err(e) ==> rsdt_read_fails(mem@, self.rsdt_address, e),
    {
        let (header, body) = match get_acpi_table_bytes(mem, self.rsdt_address) {
            Ok(hb) => hb,
            Err(e) => {
                return Err(e);
            },
        };
        if body.len() % 4 != 0 {
            return Err(TableError::MalformedBody);
        }
        let addrs = rsdt_entry_addresses(body.as_slice());
        let ghost all = root_addresses(mem@, self.rsdt_address);
        assert(addrs@ == all);
        assert(table_in_image(mem@, self.rsdt_address as int));
        let mut entries: Vec<DescriptorTable> = Vec::new();
        let mut i: usize = 0;
        while i < addrs.len()
            invariant
                table_in_image(mem@, self.rsdt_address as int),
                i <= addrs@.len(),
                addrs@ == all,
                all == root_addresses(mem@, self.rsdt_address),
                entries@.len() == i,
                forall|k: int| 0 <= k < i ==> table_at_outcome(mem@, #[trigger] all[k] as int, Ok(entries@[k])),
            decreases addrs@.len() - i,
        {
            match DescriptorTable::from_physical_ptr(mem, addrs[i]) {
                Ok(t) => {
                    entries.push(t);
                },
                Err(e) => {
                    assert(table_at_outcome(mem@, all[i as int] as int, Err(e)));
                    assert(listed_table_fails(mem@, all, e));
                    return Err(e);
                },
            }
            i = i + 1;
        }
        let mut s = Rsdt { header, entries };
        match s.dsdt_address() {
            Some(a) => {
                let ghost j = choose|j: int|
                    0 <= j < s.entries@.len() && (#[trigger] s.entries@[j].body matches DescriptorTableBody::Facp(f)
                        && f.dsdt == a);
                assert(table_at_outcome(mem@, all[j] as int, Ok(s.entries@[j])));
                match DescriptorTable::from_physical_ptr(mem, a) {
                    Ok(t) => {
                        let ghost before = s.entries@;
                        s.entries.push(t);
                        assert(s.entries@[j] == before[j]);
                        assert forall|k: int| 0 <= k < all.len() implies table_at_outcome(
                            mem@,
                            #[trigger] all[k] as int,
                            Ok(s.entries@[k]),
                        ) by {
                            assert(s.entries@[k] == before[k]);
                        }
                    },
                    Err(e) => {
                        assert(table_at_outcome(mem@, a as int, Err(e)));
                        assert(listed_table_fails(mem@, all, e));
                        return Err(e);
                    },
                }
            },
            None => {},
        }
        Ok(s)
    }
}

/// Where the BIOS read-only area, searched for the root pointer, starts.
pub const BIOS_RO_MEM_START: usize = 0x000E_0000;
/// Where the BIOS read-only area ends.
pub const BIOS_RO_MEM_END: usize = 0x000F_FFFF;

/// The part of a memory image that is the BIOS read-only area.
pub open spec fn bios_area(mem: Seq<u8>) -> Seq<u8> {
    if mem.len() <= BIOS_RO_MEM_START {
        Seq::empty()
    } else if mem.len() <= BIOS_RO_MEM_END {
        mem.subrange(BIOS_RO_MEM_START as int, mem.len() as int)
    } else {
        mem.subrange(BIOS_RO_MEM_START as int, BIOS_RO_MEM_END as int)
    }
}

/// The root pointer at `i` of `area` is the first one there.
pub open spec fn is_first_rsdp(area: Seq<u8>, i: int) -> bool {
    is_rsdp_at(area, i) && forall|j: int| 0 <= j < i ==> !is_rsdp_at(area, j)
}

/// The root pointer and the root table.
#[derive(Debug)]
pub struct BiosTables {
    pub rsdp: Rsdp,
    pub rsdt: Rsdt,
}

impl BiosTables {
    /// Zero pointer and empty root table.
    pub fn empty() -> (r: Self)
        ensures
            r.rsdp.rsdt_address == 0,
            r.rsdt.entries@.len() == 0,
    {
        BiosTables { rsdp: Rsdp::empty(), rsdt: Rsdt::empty() }
    }
}

/// Reads the ACPI tables from a memory image (address 0 at index 0): from
/// the root pointer the boot loader gave, or else the first one in the BIOS
/// read-only area, through the root table to every table it leads to.
pub fn init_acpi_tables(mem: &[u8], boot_rsdp: Option<Rsdp>) -> (r: Result<BiosTables, TableError>)
    ensures
        r matches Ok(t) ==> rsdt_read_from(mem@, t.rsdp.rsdt_address, t.rsdt),
        boot_rsdp matches Some(p) ==> (r matches Ok(t) ==> t.rsdp == p) && (r matches Err(e) ==> rsdt_read_fails(
            mem@,
            p.rsdt_address,
            e,
        )),
        boot_rsdp is None ==> (r == Err::<BiosTables, TableError>(TableError::NoRsdp) <==> forall|j: int|
            !is_rsdp_at(bios_area(mem@), j)),
        boot_rsdp is None ==> (r matches Ok(t) ==> exists|i: int|
            #[trigger] is_first_rsdp(bios_area(mem@), i) && t.rsdp.decoded_from(mem@, BIOS_RO_MEM_START + i)),
        boot_rsdp is None ==> (r matches Err(e) ==> (e != TableError::NoRsdp ==> exists|i: int|
            #[trigger] is_first_rsdp(bios_area(mem@), i) && (BIOS_RO_MEM_START + i + 36 > mem@.len() && e
                == TableError::OutOfImage || exists|p: Rsdp|
                #[trigger] p.decoded_from(mem@, BIOS_RO_MEM_START + i) && rsdt_read_fails(mem@, p.rsdt_address, e)))),
{
    let ghost mut at: int = 0;
    let rsdp = match boot_rsdp {
        Some(p) => p,
        None => {
            let n = mem.len();
            let hi = if n <= BIOS_RO_MEM_END { n } else { BIOS_RO_MEM_END };
            let lo = if n <= BIOS_RO_MEM_START { hi } else { BIOS_RO_MEM_START };
            let area = vstd::slice::slice_subrange(mem, lo, hi);
            assert(area@ =~= bios_area(mem@));
            match find_rsdp(area) {
                Some(i) => {
                    assert(is_first_rsdp(bios_area(mem@), i as int));
                    if n - lo - i < 36 {
                        return Err(TableError::OutOfImage);
                    }
                    assert(lo == BIOS_RO_MEM_START);
                    let p = Rsdp::from_memory(mem, lo + i);
                    proof {
                        at = i as int;
                    }
                    p
                },
                None => {
                    return Err(TableError::NoRsdp);
                },
            }
        },
    };
    let rsdt = match rsdp.rdst(mem) {
        Ok(t) => t,
        Err(e) => {
            proof {
                if boot_rsdp is None {
                    assert(is_first_rsdp(bios_area(mem@), at));
                    assert(rsdp.decoded_from(mem@, BIOS_RO_MEM_START + at));
                }
            }
            return Err(e);
        },
    };
    proof {
        if boot_rsdp is None {
            assert(is_first_rsdp(bios_area(mem@), at));
            assert(rsdp.decoded_from(mem@, BIOS_RO_MEM_START + at));
        }
    }
    Ok(BiosTables { rsdp, rsdt })
}

/// The size of a page.
pub const PAGE_4K: u64 = 4096;

/// Pages mapped on each side of the first address looked up.
pub const BIOS_MEMORY_MAPPED_PAGES_AROUND: u64 = 4;

/// A window of BIOS memory mapped at a virtual address.
#[derive(Debug, Clone, Copy)]
pub struct BiosMemoryMapper {
    pub start_physical: u64,
    pub start_virtual: u64,
    pub num_pages: u64,
}

impl BiosMemoryMapper {
    /// The window around `prope_addr`: from four pages below its page, nine
    /// pages long, mapped at `start_virtual`.
    pub fn new(prope_addr: u64, start_virtual: u64) -> (r: Self)
        requires
            prope_addr - prope_addr % 4096 > 4 * 4096,
        ensures
            r.start_physical == prope_addr - prope_addr % 4096 - 4 * 4096,
            r.num_pages == 9,
            r.start_virtual == start_virtual,
    {
        let prope_page = prope_addr - prope_addr % PAGE_4K;
        let around = BIOS_MEMORY_MAPPED_PAGES_AROUND * PAGE_4K;
        BiosMemoryMapper {
            start_physical: prope_page - around,
            start_virtual,
            num_pages: BIOS_MEMORY_MAPPED_PAGES_AROUND * 2 + 1,
        }
    }

    /// The virtual address of a physical address inside the window.
    pub fn get_virtual(&self, addr: u64) -> (r: u64)
        requires
            self.start_physical <= addr < self.start_physical + self.num_pages * 4096,
            addr - self.start_physical + self.start_virtual <= u64::MAX,
        ensures
            r == addr - self.start_physical + self.start_virtual,
    {
        addr - self.start_physical + self.start_virtual
    }
}

} // verus!
