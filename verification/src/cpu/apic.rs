//! Values of the I/O APIC's redirection entries and registers.

use vstd::prelude::*;
use crate::acpi::tables::{
    BiosTables, DescriptorTableBody, InterruptControllerStruct, InterruptSourceOverride, IoApic, TableKind,
};

verus! {

/// The register that selects which I/O APIC register the data window shows.
pub const IO_APIC_REDIRECTION_TABLE: u32 = 0x10;

/// Where an interrupt is delivered.
#[derive(Debug, Clone, Copy, PartialEq, Eq, Structural)]
pub enum DestinationType {
    Physical(u8),
    Logical(u8),
}

/// A redirection entry of the I/O APIC, built field by field.
#[derive(Debug, Clone, Copy, Default, PartialEq, Eq, Structural)]
pub struct IoApicRedirectionBuilder {
    pub reg: u64,
}

/// `x` with the bits of `mask` replaced by `value` (which lies within the
/// mask).
pub open spec fn with_bits(x: u64, mask: u64, value: u64) -> u64 {
    (x & !mask) | value
}

impl IoApicRedirectionBuilder {
    pub fn with_vector(self, vector: u8) -> (r: Self)
        ensures
            r.reg == with_bits(self.reg, 0xff, vector as u64),
    {
        IoApicRedirectionBuilder { reg: (self.reg & !0xffu64) | vector as u64 }
    }

    pub fn with_delivery_mode(self, delivery_mode: u8) -> (r: Self)
        ensures
            r.reg == with_bits(self.reg, 0x700, (((delivery_mode & 0x7) as u64) * 0x100) as u64),
    {
        let m = (delivery_mode & 0x7) as u64;
        proof {
            crate::bits::lemma_u8(delivery_mode);
            crate::bits::lemma_u64(m);
        }
        IoApicRedirectionBuilder { reg: (self.reg & !0x700u64) | (m << 8u64) }
    }

    /// Sets the pin polarity bit (13): active low when set.
    pub fn with_interrupt_polartiy_low(self, polarity: bool) -> (r: Self)
        ensures
            r.reg == with_bits(self.reg, 0x2000, if polarity { 0x2000 } else { 0 }),
    {
        let b: u64 = if polarity {
            0x2000
        } else {
            0
        };
        IoApicRedirectionBuilder { reg: (self.reg & !0x2000u64) | b }
    }

    /// Sets the trigger mode bit (15): level triggered when set.
    pub fn with_trigger_mode_level(self, trigger_mode: bool) -> (r: Self)
        ensures
            r.reg == with_bits(self.reg, 0x8000, if trigger_mode { 0x8000 } else { 0 }),
    {
        let b: u64 = if trigger_mode {
            0x8000
        } else {
            0
        };
        IoApicRedirectionBuilder { reg: (self.reg & !0x8000u64) | b }
    }

    /// Sets the mask bit (16): the interrupt is masked when set.
    pub fn with_mask(self, mask: bool) -> (r: Self)
        ensures
            r.reg == with_bits(self.reg, 0x1_0000, if mask { 0x1_0000 } else { 0 }),
    {
        let b: u64 = if mask {
            0x1_0000
        } else {
            0
        };
        IoApicRedirectionBuilder { reg: (self.reg & !0x1_0000u64) | b }
    }

    /// Sets the destination: a physical APIC id (below 32) in bits 59 and
    /// up with the mode bit (11) clear, or a logical set in bits 56 and up
    /// with the mode bit set.
    pub fn with_destination(self, destination: DestinationType) -> (r: Self)
        requires
            destination matches DestinationType::Physical(d) ==> d < 32,
        ensures
            r.reg == match destination {
                DestinationType::Physical(d) => with_bits(self.reg & !0x800u64, 0xf800_0000_0000_0000, ((d as u64)
                    * 0x0800_0000_0000_0000) as u64),
                DestinationType::Logical(d) => with_bits(self.reg | 0x800, 0xff00_0000_0000_0000, ((d as u64)
                    * 0x0100_0000_0000_0000) as u64),
            },
    {
        match destination {
            DestinationType::Physical(d) => {
                let r1 = self.reg & !0x800u64;
                let v = (d & 0x1f) as u64;
                proof {
                    crate::bits::lemma_u8(d);
                    crate::bits::lemma_u64(v);
                }
                IoApicRedirectionBuilder { reg: (r1 & !0xf800_0000_0000_0000u64) | (v << 59u64) }
            },
            DestinationType::Logical(d) => {
                let r1 = self.reg | 0x800u64;
                let v = d as u64;
                proof {
                    crate::bits::lemma_u64(v);
                }
                IoApicRedirectionBuilder { reg: (r1 & !0xff00_0000_0000_0000u64) | (v << 56u64) }
            },
        }
    }

    /// The register writes that store the entry for `irq`: the low word,
    /// then the high word, each as (select register, value).
    pub fn entry_writes(&self, irq: u8) -> (r: [(u32, u32); 2])
        requires
            irq < 24,
        ensures
            r@ == seq![((0x10 + 2 * irq) as u32, (self.reg % 0x1_0000_0000) as u32), ((0x11 + 2 * irq) as u32, (self.reg / 0x1_0000_0000) as u32)],
    {
        let lo = self.reg as u32;
        let hi = (self.reg >> 32u64) as u32;
        let reg = self.reg;
        proof {
            crate::bits::lemma_u64(reg);
        }
        let base = IO_APIC_REDIRECTION_TABLE + 2 * irq as u32;
        let r = [(base, lo), (base + 1, hi)];
        assert(r@ =~= seq![((0x10 + 2 * irq) as u32, (self.reg % 0x1_0000_0000) as u32), ((0x11 + 2 * irq) as u32, (self.reg / 0x1_0000_0000) as u32)]);
        r
    }
}

/// `x` with the bits of `mask` replaced by `value` (which lies within the
/// mask), in a 32-bit register.
pub open spec fn with_bits32(x: u32, mask: u32, value: u32) -> u32 {
    (x & !mask) | value
}

pub const LVT_VECTOR_MASK: u32 = 0xFF;
pub const LVT_MESSAGE_TYPE_MASK: u32 = 0x700;
pub const LVT_TRIGGER_MODE_MASK: u32 = 0x8000;
pub const LVT_MASK_MASK: u32 = 0x1_0000;
pub const LVT_TIMER_MODE_MASK: u32 = 0x2_0000;

/// Enables the local APIC, in the spurious interrupt vector register.
pub const SPURIOUS_ENABLE: u32 = 0x100;

/// An entry of the local APIC's vector table, built field by field.
#[derive(Debug, Clone, Copy, Default, PartialEq, Eq, Structural)]
pub struct LocalVectorRegisterBuilder {
    pub reg: u32,
}

impl LocalVectorRegisterBuilder {
    pub fn with_vector(self, vector: u8) -> (r: Self)
        ensures
            r.reg == with_bits32(self.reg, 0xff, vector as u32),
    {
        LocalVectorRegisterBuilder { reg: (self.reg & !LVT_VECTOR_MASK) | vector as u32 }
    }

    /// Sets the delivery mode (bits 8 to 10) to the low three bits of
    /// `message_type`.
    pub fn with_message_type(self, message_type: u8) -> (r: Self)
        ensures
            r.reg == with_bits32(self.reg, 0x700, ((message_type % 8) * 0x100) as u32),
    {
        let m = (message_type & 0x7) as u32;
        proof {
            crate::bits::lemma_u8(message_type);
            crate::bits::lemma_local_vector(m);
        }
        LocalVectorRegisterBuilder { reg: (self.reg & !LVT_MESSAGE_TYPE_MASK) | (m << 8u32) }
    }

    /// Sets the trigger mode bit (15): level triggered when set.
    pub fn with_trigger_mode(self, trigger_mode: bool) -> (r: Self)
        ensures
            r.reg == with_bits32(self.reg, 0x8000, if trigger_mode { 0x8000 } else { 0 }),
    {
        let b: u32 = if trigger_mode {
            0x8000
        } else {
            0
        };
        LocalVectorRegisterBuilder { reg: (self.reg & !LVT_TRIGGER_MODE_MASK) | b }
    }

    /// Sets the mask bit (16): the interrupt is masked when set.
    pub fn with_mask(self, mask: bool) -> (r: Self)
        ensures
            r.reg == with_bits32(self.reg, 0x1_0000, if mask { 0x1_0000 } else { 0 }),
    {
        let b: u32 = if mask {
            0x1_0000
        } else {
            0
        };
        LocalVectorRegisterBuilder { reg: (self.reg & !LVT_MASK_MASK) | b }
    }

    /// Sets the timer mode bit (17): periodic when set, one-shot otherwise.
    pub fn with_periodic_timer(self, timer_mode: bool) -> (r: Self)
        ensures
            r.reg == with_bits32(self.reg, 0x2_0000, if timer_mode { 0x2_0000 } else { 0 }),
    {
        let b: u32 = if timer_mode {
            0x2_0000
        } else {
            0
        };
        LocalVectorRegisterBuilder { reg: (self.reg & !LVT_TIMER_MODE_MASK) | b }
    }
}

/// The value of the spurious interrupt vector register: the APIC enabled,
/// spurious interrupts sent to `vector`.
pub fn initialize_spurious_interrupt(vector: u8) -> (r: u32)
    ensures
        r == 0x100 + vector,
{
    proof {
        crate::bits::lemma_local_vector(vector as u32);
    }
    SPURIOUS_ENABLE | vector as u32
}

/// The entry for the local interrupts 0 and 1: masked.
pub fn disable_local_interrupts() -> (r: LocalVectorRegisterBuilder)
    ensures
        r.reg == 0x1_0000,
{
    let r = LocalVectorRegisterBuilder { reg: 0 }.with_mask(true);
    proof {
        crate::bits::lemma_local_vector(0);
    }
    r
}

/// The timer's setup: the divide configuration (divide by 1), the initial
/// count, and its entry: periodic, not masked, sent to `vector`.
pub fn initialize_timer(vector: u8) -> (r: (u32, u32, LocalVectorRegisterBuilder))
    ensures
        r.0 == 0b1011,
        r.1 == 0x100_0000,
        r.2.reg == 0x2_0000 + vector,
{
    let b = LocalVectorRegisterBuilder { reg: 0 }.with_periodic_timer(true).with_mask(false).with_vector(vector);
    proof {
        crate::bits::lemma_local_vector(vector as u32);
    }
    (0b1011, 0x100_0000, b)
}

/// The error interrupt's entry: not masked, sent to `vector`. The error
/// status register is written with zero twice before it is set.
pub fn setup_error_interrupt(vector: u8) -> (r: LocalVectorRegisterBuilder)
    ensures
        r.reg == vector,
{
    let b = LocalVectorRegisterBuilder { reg: 0 }.with_mask(false).with_vector(vector);
    proof {
        crate::bits::lemma_local_vector(vector as u32);
    }
    b
}

/// The register window of an I/O APIC: a register select and a data
/// register.
#[derive(Debug, Clone, Copy)]
pub struct IoApicMmio {
    pub register_select: u32,
    pub data: u32,
}

impl IoApicMmio {
    /// Selects `register`; the value is then read from the data register.
    pub fn read_register(&mut self, register: u32)
        ensures
            final(self).register_select == register,
            final(self).data == old(self).data,
    {
        self.register_select = register;
    }

    /// Selects `register` and writes `value` through the data register.
    pub fn write_register(&mut self, register: u32, value: u32)
        ensures
            final(self).register_select == register,
            final(self).data == value,
    {
        self.register_select = register;
        self.data = value;
    }
}

/// The global interrupt an ISA interrupt is wired to: the first source
/// override for it where there is one, the same number otherwise.
pub open spec fn global_interrupt_from(overrides: Seq<InterruptSourceOverride>, irq: u8, i: int) -> u32
    decreases overrides.len() - i,
{
    if i < 0 || i >= overrides.len() {
        irq as u32
    } else if overrides[i].source == irq {
        overrides[i].global_system_interrupt
    } else {
        global_interrupt_from(overrides, irq, i + 1)
    }
}

/// The first I/O APIC, from `i` on, whose 24 inputs cover global
/// interrupt `gsi`.
pub open spec fn io_apic_for(bases: Seq<u32>, gsi: u32, i: int) -> Option<int>
    decreases bases.len() - i,
{
    if i < 0 || i >= bases.len() {
        None
    } else if bases[i] <= gsi && gsi < bases[i] + 24 {
        Some(i)
    } else {
        io_apic_for(bases, gsi, i + 1)
    }
}

/// The global interrupt that ISA interrupt `irq` arrives on.
pub fn global_interrupt(overrides: &[InterruptSourceOverride], irq: u8) -> (r: u32)
    ensures
        r == global_interrupt_from(overrides@, irq, 0),
{
    let mut i: usize = 0;
    while i < overrides.len()
        invariant
            i <= overrides@.len(),
            global_interrupt_from(overrides@, irq, 0) == global_interrupt_from(overrides@, irq, i as int),
        decreases overrides@.len() - i,
    {
        if overrides[i].source == irq {
            return overrides[i].global_system_interrupt;
        }
        i = i + 1;
    }
    irq as u32
}

/// The I/O APIC (by index among `bases`, their first global interrupts)
/// and its input that ISA interrupt `irq` is wired to. `None` where no
/// I/O APIC covers it.
pub fn route_io_irq(overrides: &[InterruptSourceOverride], bases: &[u32], irq: u8) -> (r: Option<(usize, u8)>)
    requires
        irq < 24,
    ensures
        ({
            let gsi = global_interrupt_from(overrides@, irq, 0);
            match io_apic_for(bases@, gsi, 0) {
                Some(k) => r == Some((k as usize, (gsi - bases@[k]) as u8)),
                None => r is None,
            }
        }),
{
    let gsi = global_interrupt(overrides, irq);
    let mut i: usize = 0;
    while i < bases.len()
        invariant
            i <= bases@.len(),
            gsi == global_interrupt_from(overrides@, irq, 0),
            io_apic_for(bases@, gsi, 0) == io_apic_for(bases@, gsi, i as int),
        decreases bases@.len() - i,
    {
        let base = bases[i];
        if base <= gsi && gsi - base < 24 {
            assert(io_apic_for(bases@, gsi, i as int) == Some(i as int));
            return Some((i, (gsi - base) as u8));
        }
        i = i + 1;
    }
    None
}

/// The entry for a newly assigned interrupt: `vector`, fixed delivery,
/// active high, edge triggered, not masked, sent to the APIC `apic_id`.
pub fn assigned_entry(vector: u8, apic_id: u8) -> (r: IoApicRedirectionBuilder)
    requires
        apic_id < 32,
    ensures
        r.reg == (vector as u64) + (apic_id as u64) * 0x0800_0000_0000_0000,
{
    let b = IoApicRedirectionBuilder { reg: 0 };
    let b = b.with_vector(vector);
    let b = b.with_delivery_mode(0);
    let b = b.with_interrupt_polartiy_low(false);
    let b = b.with_trigger_mode_level(false);
    let b = b.with_mask(false);
    let r = b.with_destination(DestinationType::Physical(apic_id));
    let v = vector as u64;
    let d = apic_id as u64;
    proof {
        crate::bits::lemma_u64(v);
        crate::bits::lemma_constants();
        crate::bits::lemma_vector_destination(v, d);
    }
    r
}

proof fn lemma_io_apic_for_covers(bases: Seq<u32>, gsi: u32, i: int)
    ensures
        io_apic_for(bases, gsi, i) matches Some(k) ==> 0 <= k < bases.len() && bases[k] <= gsi < bases[k] + 24,
    decreases bases.len() - i,
{
    if 0 <= i < bases.len() && !(bases[i] <= gsi && gsi < bases[i] + 24) {
        lemma_io_apic_for_covers(bases, gsi, i + 1);
    }
}

/// Where and what to write to send ISA interrupt `irq` to `vector` on the
/// CPU with the given local APIC: the I/O APIC (by index among `bases`),
/// its input, and the redirection entry, which the caller may still
/// modify before writing it (see `IoApicRedirectionBuilder::entry_writes`).
/// The CPU must exist, the interrupt be an ISA one, and an I/O APIC cover
/// the global interrupt it is wired to.
pub fn assign_io_irq(
    overrides: &[InterruptSourceOverride],
    bases: &[u32],
    n_cpus: usize,
    cpu_id: usize,
    apic_id: u8,
    irq: u8,
    vector: u8,
) -> (r: (usize, u8, IoApicRedirectionBuilder))
    requires
        cpu_id < n_cpus,
        irq < 24,
        apic_id < 32,
        io_apic_for(bases@, global_interrupt_from(overrides@, irq, 0), 0) is Some,
    ensures
        ({
            let gsi = global_interrupt_from(overrides@, irq, 0);
            let k = io_apic_for(bases@, gsi, 0)->Some_0;
            &&& r.0 == k
            &&& r.1 == gsi - bases@[k]
            &&& r.2.reg == (vector as u64) + (apic_id as u64) * 0x0800_0000_0000_0000
        }),
{
    proof {
        lemma_io_apic_for_covers(bases@, global_interrupt_from(overrides@, irq, 0), 0);
    }
    let found = route_io_irq(overrides, bases, irq);
    let ghost gsi = global_interrupt_from(overrides@, irq, 0);
    let ghost k = io_apic_for(bases@, gsi, 0)->Some_0;
    let n = bases.len();
    assert(0 <= k < n);
    assert(found == Some((k as usize, (gsi - bases@[k]) as u8)));
    let (io_apic, entry) = found.unwrap();
    assert(0 <= gsi - bases@[k] < 24);
    (io_apic, entry, assigned_entry(vector, apic_id))
}

/// The entry that masks an input: vector 0, masked.
pub fn masked_entry() -> (r: IoApicRedirectionBuilder)
    ensures
        r.reg == 0x1_0000,
{
    let b = IoApicRedirectionBuilder { reg: 0 };
    let r = b.with_vector(0).with_mask(true);
    proof {
        crate::bits::lemma_constants();
    }
    r
}

/// The register writes that mask all 24 inputs of an I/O APIC.
#[verifier::spinoff_prover]
pub fn reset_all_interrupts() -> (r: Vec<(u32, u32)>)
    ensures
        r@.len() == 48,
        forall|k: int| 0 <= k < 24 ==> #[trigger] r@[2 * k] == ((0x10 + 2 * k) as u32, 0x1_0000u32) && r@[2 * k
            + 1] == ((0x11 + 2 * k) as u32, 0u32),
{
    let mut out: Vec<(u32, u32)> = Vec::new();
    let mut i: u8 = 0;
    while i < 24
        invariant
            i <= 24,
            out@.len() == 2 * i,
            forall|k: int| 0 <= k < i ==> #[trigger] out@[2 * k] == ((0x10 + 2 * k) as u32, 0x1_0000u32) && out@[2
                * k + 1] == ((0x11 + 2 * k) as u32, 0u32),
        decreases 24 - i,
    {
        let entry = masked_entry();
        let writes = entry.entry_writes(i);
        assert(writes@[0] == ((0x10 + 2 * i) as u32, 0x1_0000u32));
        assert(writes@[1] == ((0x11 + 2 * i) as u32, 0u32));
        let ghost prev = out@;
        out.push(writes[0]);
        out.push(writes[1]);
        proof {
            assert(out@ == prev.push(writes@[0]).push(writes@[1]));
            assert forall|k: int| 0 <= k < i + 1 implies #[trigger] out@[2 * k] == ((0x10 + 2 * k) as u32, 0x1_0000u32)
                && out@[2 * k + 1] == ((0x11 + 2 * k) as u32, 0u32) by {
                if k < i {
                    assert(out@[2 * k] == prev[2 * k]);
                    assert(out@[2 * k + 1] == prev[2 * k + 1]);
                } else {
                    assert(k == i);
                    assert(out@[2 * k] == writes@[0]);
                    assert(out@[2 * k + 1] == writes@[1]);
                }
            }
        }
        i = i + 1;
    }
    out
}

// ---------------------------------------------------------------------------
// The configuration the MADT gives

/// Local APIC base address bits of the APIC base register.
pub const APIC_BASE_MASK: u64 = 0xFFFF_FFFF_FFFF_F000;
/// The APIC enabled bit of the APIC base register.
pub const APIC_BAR_ENABLED: u64 = 0x800;
pub const DEFAULT_APIC_BASE: usize = 0xFEE0_0000;

/// Why the interrupt controllers cannot be set up.
#[derive(Debug, Clone, Copy, PartialEq, Eq, Structural)]
pub enum ApicError {
    /// No MADT among the ACPI tables.
    NoMadt,
    /// The MADT lists a non-maskable interrupt source, which is not handled.
    NonMaskableInterrupt,
    /// A local APIC NMI entry other than LINT1 of all processors.
    UnexpectedLocalApicNmi,
    /// An I/O APIC at address zero or not 16-byte aligned.
    BadIoApicAddress,
    /// No enabled processor.
    NoCpus,
    /// No I/O APIC.
    NoIoApics,
    /// The local APIC address is zero.
    ZeroApicAddress,
    /// The local APIC address is not 16-byte aligned.
    UnalignedApicAddress,
}

/// What the MADT entries read so far give: the local APIC address, the
/// APIC ids of the processors, the I/O APICs and the source overrides.
pub struct MadtModel {
    pub address: u64,
    pub cpus: Seq<u8>,
    pub io_apics: Seq<IoApic>,
    pub overrides: Seq<InterruptSourceOverride>,
}

/// One MADT entry: enabled processors are kept up to `MAX_CPUS`, I/O APICs
/// and source overrides kept, an address override replaces the address.
pub open spec fn madt_step(st: MadtModel, s: InterruptControllerStruct) -> Result<MadtModel, ApicError> {
    match s {
        InterruptControllerStruct::ProcessorLocalApic(p) => if p.flags % 2 == 0 || st.cpus.len() >= 8 {
            Ok(st)
        } else {
            Ok(MadtModel { cpus: st.cpus.push(p.apic_id), ..st })
        },
        InterruptControllerStruct::IoApic(io) => if io.io_apic_address == 0 || io.io_apic_address % 16 != 0 {
            Err(ApicError::BadIoApicAddress)
        } else {
            Ok(MadtModel { io_apics: st.io_apics.push(io), ..st })
        },
        InterruptControllerStruct::InterruptSourceOverride(o) => Ok(MadtModel { overrides: st.overrides.push(o), ..st }),
        InterruptControllerStruct::NonMaskableInterrupt(_) => Err(ApicError::NonMaskableInterrupt),
        InterruptControllerStruct::LocalApicNmi(n) => if n.acpi_processor_uid == 0xFF && n.flags == 0
            && n.local_apic_lint == 1 {
            Ok(st)
        } else {
            Err(ApicError::UnexpectedLocalApicNmi)
        },
        InterruptControllerStruct::LocalApicAddressOverride(o) => Ok(MadtModel { address: o.local_apic_address, ..st }),
        InterruptControllerStruct::Unknown { .. } => Ok(st),
    }
}

/// The entries from `k` on, read in order; the first failing one decides.
pub open spec fn madt_walk(structs: Seq<InterruptControllerStruct>, k: int, st: MadtModel) -> Result<MadtModel, ApicError>
    decreases structs.len() - k,
{
    if k < 0 || k >= structs.len() {
        Ok(st)
    } else {
        match madt_step(st, structs[k]) {
            Ok(next) => madt_walk(structs, k + 1, next),
            Err(e) => Err(e),
        }
    }
}

/// The checks of the whole configuration.
pub open spec fn madt_result(walked: Result<MadtModel, ApicError>) -> Result<MadtModel, ApicError> {
    match walked {
        Err(e) => Err(e),
        Ok(m) => if m.cpus.len() == 0 {
            Err(ApicError::NoCpus)
        } else if m.io_apics.len() == 0 {
            Err(ApicError::NoIoApics)
        } else if m.address == 0 {
            Err(ApicError::ZeroApicAddress)
        } else if m.address % 16 != 0 {
            Err(ApicError::UnalignedApicAddress)
        } else {
            Ok(m)
        },
    }
}

/// The interrupt controllers of the machine.
#[derive(Debug)]
pub struct ApicConfig {
    /// The local APIC's physical address.
    pub apic_address: u64,
    /// Whether the MADT's address differs from the one in the processor's
    /// APIC base register (the MADT's is used).
    pub msr_address_differs: bool,
    /// The local APIC ids of the processors, by processor index.
    pub cpu_apic_ids: Vec<u8>,
    pub io_apics: Vec<IoApic>,
    pub source_overrides: Vec<InterruptSourceOverride>,
}

pub open spec fn config_model(c: ApicConfig) -> MadtModel {
    MadtModel { address: c.apic_address, cpus: c.cpu_apic_ids@, io_apics: c.io_apics@, overrides: c.source_overrides@ }
}

pub open spec fn initial_model(madt: crate::acpi::tables::Apic) -> MadtModel {
    MadtModel { address: madt.local_apic_address as u64, cpus: Seq::empty(), io_apics: Seq::empty(), overrides: Seq::empty() }
}

/// Reads the interrupt controller configuration from the MADT; `msr_base`
/// is the value of the processor's APIC base register.
pub fn madt_config(madt: &crate::acpi::tables::Apic, msr_base: u64) -> (r: Result<ApicConfig, ApicError>)
    ensures
        match (r, madt_result(madt_walk(madt.interrupt_controller_structs@, 0, initial_model(*madt)))) {
            (Ok(c), Ok(m)) => config_model(c) == m && c.msr_address_differs == (madt.local_apic_address as u64
                != msr_base & 0xFFFF_FFFF_FFFF_F000),
            (Err(e), Err(f)) => e == f,
            _ => false,
        },
{
    let structs = &madt.interrupt_controller_structs;
    let ghost all = structs@;
    let mut address: u64 = madt.local_apic_address as u64;
    let mut cpus: Vec<u8> = Vec::new();
    let mut io_apics: Vec<IoApic> = Vec::new();
    let mut overrides: Vec<InterruptSourceOverride> = Vec::new();
    let mut k: usize = 0;
    while k < structs.len()
        invariant
            k <= all.len(),
            all == structs@,
            all == madt.interrupt_controller_structs@,
            madt_walk(all, 0, initial_model(*madt)) == madt_walk(
                all,
                k as int,
                MadtModel { address, cpus: cpus@, io_apics: io_apics@, overrides: overrides@ },
            ),
        decreases all.len() - k,
    {
        let ghost st = MadtModel { address, cpus: cpus@, io_apics: io_apics@, overrides: overrides@ };
        match &structs[k] {
            InterruptControllerStruct::ProcessorLocalApic(p) => {
                if p.flags % 2 == 1 && cpus.len() < super::MAX_CPUS {
                    cpus.push(p.apic_id);
                }
            },
            InterruptControllerStruct::IoApic(io) => {
                if io.io_apic_address == 0 || io.io_apic_address % 16 != 0 {
                    assert(madt_walk(all, k as int, st) == Err::<MadtModel, ApicError>(ApicError::BadIoApicAddress));
                    return Err(ApicError::BadIoApicAddress);
                }
                io_apics.push(*io);
            },
            InterruptControllerStruct::InterruptSourceOverride(o) => {
                overrides.push(*o);
            },
            InterruptControllerStruct::NonMaskableInterrupt(_) => {
                assert(madt_walk(all, k as int, st) == Err::<MadtModel, ApicError>(ApicError::NonMaskableInterrupt));
                return Err(ApicError::NonMaskableInterrupt);
            },
            InterruptControllerStruct::LocalApicNmi(n) => {
                if !(n.acpi_processor_uid == 0xFF && n.flags == 0 && n.local_apic_lint == 1) {
                    assert(madt_walk(all, k as int, st) == Err::<MadtModel, ApicError>(
                        ApicError::UnexpectedLocalApicNmi,
                    ));
                    return Err(ApicError::UnexpectedLocalApicNmi);
                }
            },
            InterruptControllerStruct::LocalApicAddressOverride(o) => {
                address = o.local_apic_address;
            },
            InterruptControllerStruct::Unknown { .. } => {},
        }
        proof {
            let next = MadtModel { address, cpus: cpus@, io_apics: io_apics@, overrides: overrides@ };
            assert(madt_step(st, all[k as int]) == Ok::<MadtModel, ApicError>(next));
        }
        k = k + 1;
    }
    if cpus.len() == 0 {
        return Err(ApicError::NoCpus);
    }
    if io_apics.len() == 0 {
        return Err(ApicError::NoIoApics);
    }
    if address == 0 {
        return Err(ApicError::ZeroApicAddress);
    }
    if address % 16 != 0 {
        return Err(ApicError::UnalignedApicAddress);
    }
    let differs = madt.local_apic_address as u64 != msr_base & APIC_BASE_MASK;
    Ok(ApicConfig { apic_address: address, msr_address_differs: differs, cpu_apic_ids: cpus, io_apics, source_overrides: overrides })
}

proof fn lemma_walk_never_no_madt(structs: Seq<InterruptControllerStruct>, k: int, st: MadtModel)
    ensures
        madt_result(madt_walk(structs, k, st)) != Err::<MadtModel, ApicError>(ApicError::NoMadt),
    decreases structs.len() - k,
{
    if 0 <= k < structs.len() {
        match madt_step(st, structs[k]) {
            Ok(next) => lemma_walk_never_no_madt(structs, k + 1, next),
            Err(_) => {},
        }
    }
}

/// Reads the configuration from the first MADT among the ACPI tables.
pub fn apic_config(tables: &BiosTables, msr_base: u64) -> (r: Result<ApicConfig, ApicError>)
    ensures
        r == Err::<ApicConfig, ApicError>(ApicError::NoMadt) <==> forall|j: int|
            0 <= j < tables.rsdt.entries@.len() ==> crate::acpi::tables::body_kind(
                #[trigger] tables.rsdt.entries@[j].body,
            ) != Some(TableKind::Apic),
        r matches Ok(c) ==> exists|j: int|
            0 <= j < tables.rsdt.entries@.len() && (#[trigger] tables.rsdt.entries@[j].body matches DescriptorTableBody::Apic(
                madt,
            ) && madt_result(madt_walk(madt.interrupt_controller_structs@, 0, initial_model(*madt))) matches Ok(m)
                && config_model(c) == m),
        forall|i: int|
            0 <= i < tables.rsdt.entries@.len() && (forall|j: int| 0 <= j < i ==> crate::acpi::tables::body_kind(
                #[trigger] tables.rsdt.entries@[j].body,
            ) != Some(TableKind::Apic)) ==> (#[trigger] tables.rsdt.entries@[i].body matches DescriptorTableBody::Apic(madt)
                ==> match (r, madt_result(madt_walk(madt.interrupt_controller_structs@, 0, initial_model(*madt)))) {
                (Ok(c), Ok(m)) => config_model(c) == m && c.msr_address_differs == (madt.local_apic_address as u64
                    != msr_base & 0xFFFF_FFFF_FFFF_F000),
                (Err(e), Err(f)) => e == f,
                _ => false,
            }),
{
    match tables.rsdt.get_table(TableKind::Apic) {
        Some(DescriptorTableBody::Apic(madt)) => {
            let r = madt_config(madt, msr_base);
            proof {
                lemma_walk_never_no_madt(madt.interrupt_controller_structs@, 0, initial_model(**madt));
            }
            r
        },
        _ => Err(ApicError::NoMadt),
    }
}

} // verus!
