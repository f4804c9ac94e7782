use emerald_kernel::acpi::tables::{
    Apic, InterruptControllerStruct, InterruptSourceOverride, IoApic, LocalApicAddressOverride, LocalApicNmi,
    NonMaskableInterrupt, ProcessorLocalApic,
};
use emerald_kernel::collections::ring::RingBuffer;
use emerald_kernel::cpu::apic::{
    assign_io_irq, assigned_entry, disable_local_interrupts, global_interrupt, initialize_spurious_interrupt,
    initialize_timer, madt_config, setup_error_interrupt, ApicError, LocalVectorRegisterBuilder, masked_entry, reset_all_interrupts, route_io_irq, DestinationType,
    IoApicRedirectionBuilder,
};
use emerald_kernel::cpu::gdt::GlobalDescriptorManager;
use emerald_kernel::cpu::{interrupts_disabled, Cpu};
use emerald_kernel::cpu::idt::{InterruptDescriptorTable, InterruptDescriptorTableEntry};
use emerald_kernel::cpu::interrupts::Interrupts;
use emerald_kernel::devices::net::e1000::{read_mac_address, eeprom_read_request};
use emerald_kernel::devices::pci::{pci_config_address, ConfigReadings, PciBar, PciDeviceConfig, PciDevicePropeIterator};
use emerald_kernel::devices::ps2::{classify_reply, route_data, CommandStep, CommandWriter, DataRoute, Ps2, Reply};
use emerald_kernel::executable::elf::{Elf, ElfLoadError};

#[test]
fn ring_buffer_is_first_in_first_out() {
    let mut ring: RingBuffer<u32, 4> = RingBuffer::empty();
    assert!(ring.try_push(1));
    assert!(ring.try_push(2));
    assert!(ring.try_push(3));
    // four slots hold three values
    assert!(!ring.try_push(4));
    assert_eq!(ring.pop(), Some(1));
    ring.push(5);
    assert_eq!(ring.pop(), Some(2));
    assert_eq!(ring.pop(), Some(3));
    assert_eq!(ring.pop(), Some(5));
    assert_eq!(ring.pop(), None);
    ring.push(6);
    ring.clear();
    assert_eq!(ring.pop(), None);
}

fn elf64_image() -> Vec<u8> {
    let mut v = vec![0u8; 64 + 56];
    v[0..4].copy_from_slice(&[0x7f, b'E', b'L', b'F']);
    v[4] = 2; // 64 bits
    v[5] = 1; // little endian
    v[6] = 1; // version
    v[16..18].copy_from_slice(&2u16.to_le_bytes()); // executable
    v[18..20].copy_from_slice(&0x3Eu16.to_le_bytes()); // x86-64
    v[20..24].copy_from_slice(&1u32.to_le_bytes());
    v[24..32].copy_from_slice(&0x40_1000u64.to_le_bytes()); // entry
    v[32..40].copy_from_slice(&64u64.to_le_bytes()); // program headers offset
    v[52..54].copy_from_slice(&64u16.to_le_bytes());
    v[54..56].copy_from_slice(&56u16.to_le_bytes());
    v[56..58].copy_from_slice(&1u16.to_le_bytes());
    // one loadable segment
    v[64..68].copy_from_slice(&1u32.to_le_bytes());
    v[68..72].copy_from_slice(&5u32.to_le_bytes());
    v[80..88].copy_from_slice(&0x40_0000u64.to_le_bytes());
    v[96..104].copy_from_slice(&0x200u64.to_le_bytes());
    v[104..112].copy_from_slice(&0x300u64.to_le_bytes());
    v
}

#[test]
fn elf_loads_its_program_headers() {
    let image = elf64_image();
    let elf = Elf::load(&image).expect("elf");
    assert_eq!(elf.entry_point(), 0x40_1000);
    assert_eq!(elf.program_headers().len(), 1);
    let p = &elf.program_headers()[0];
    assert_eq!(p.virtual_address(), 0x40_0000);
    assert_eq!(p.file_size(), 0x200);
    assert_eq!(p.mem_size(), 0x300);
    assert_eq!(p.flags(), 5);
}

#[test]
fn elf_errors() {
    assert!(matches!(Elf::load(&[0u8; 10]), Err(ElfLoadError::UnexpectedEndOfFile)));
    let mut image = elf64_image();
    image[0] = 0;
    assert!(matches!(Elf::load(&image), Err(ElfLoadError::InvalidMagic)));
    let mut image = elf64_image();
    image[5] = 2; // big endian
    assert!(matches!(Elf::load(&image), Err(ElfLoadError::InvalidElfOrNotSupported)));
    let image = elf64_image();
    assert!(matches!(Elf::load(&image[..100]), Err(ElfLoadError::UnexpectedEndOfFile)));
}

#[test]
fn gdt_segments() {
    let mut gdt = GlobalDescriptorManager::empty();
    gdt.init_segments(0x1000, [0x2000; 7], 0x9000);
    assert_eq!(gdt.kernel_code_seg.0, 8);
    assert_eq!(gdt.user_code_seg.0, 16);
    assert_eq!(gdt.kernel_data_seg.0, 24);
    assert_eq!(gdt.user_data_seg.0, 32);
    assert_eq!(gdt.tss_seg.0, 40);
    assert_eq!(gdt.gdt.data[1], 0x0020_9800_0000_0000);
    assert_eq!(gdt.gdt.data[2], 0x0020_f800_0000_0000);
    assert_eq!(gdt.gdt.data[3], 0x0000_9200_0000_0000);
    assert_eq!(gdt.gdt.data[4], 0x0000_f200_0000_0000);
    assert_eq!(gdt.tss.ist[0], 0x2000 - 8);
    assert_eq!(gdt.tss.rsp[0], 0x9000 - 8);
}

#[test]
fn idt_default_handlers() {
    let mut idt = InterruptDescriptorTable::empty();
    let handlers: Vec<u64> = (0..256u64).map(|v| 0xFFFF_8000_0000_0000 + v * 16).collect();
    idt.init_default_handlers(&handlers, 8);
    let e = idt.entries[14];
    assert_eq!(e.selector, 8);
    assert_eq!(e.flags, 0x8e);
    assert_eq!(e.ist, 1);
    assert_eq!(e.offset_low as u64 | (e.offset_middle as u64) << 16 | (e.offset_high as u64) << 32, handlers[14]);
    assert_eq!(idt.entries[8].ist, 2);
    assert_eq!(idt.entries[3].ist, 0);
    // reserved exceptions stay empty
    assert_eq!(idt.entries[9], InterruptDescriptorTableEntry::empty());
    assert_eq!(idt.entries[15], InterruptDescriptorTableEntry::empty());
    assert_eq!(idt.entries[200].flags, 0x8e);
}

#[test]
fn interrupt_vectors_are_handed_out_in_order() {
    let mut ints = Interrupts::empty();
    assert_eq!(ints.allocate_basic_user_interrupt(0x1000, 8), 0x20);
    assert_eq!(ints.allocate_user_interrupt_all_saved(0x2000, 8), 0x21);
    assert_eq!(ints.idt.entries[0x21].offset_low, 0x2000);
    ints.create_scheduler_interrupt(0x3000, 8);
    assert_eq!(ints.idt.entries[0xFF].offset_low, 0x3000);
    ints.create_syscall_interrupt(0x4000, 8);
    let e = ints.idt.entries[0xFE];
    assert_eq!(e.flags, 0xee);
    assert_eq!(e.ist, 3);
}

#[test]
fn io_apic_routing() {
    let overrides = [
        InterruptSourceOverride { bus: 0, source: 0, global_system_interrupt: 2, flags: 0 },
        InterruptSourceOverride { bus: 0, source: 9, global_system_interrupt: 30, flags: 0 },
    ];
    assert_eq!(global_interrupt(&overrides, 0), 2);
    assert_eq!(global_interrupt(&overrides, 1), 1);
    assert_eq!(route_io_irq(&overrides, &[0, 24], 0), Some((0, 2)));
    assert_eq!(route_io_irq(&overrides, &[0, 24], 9), Some((1, 6)));
    assert_eq!(route_io_irq(&overrides, &[0], 9), None);

    assert_eq!(assigned_entry(0x21, 3).reg, 0x21 | (3u64 << 59));
    assert_eq!(masked_entry().reg, 0x1_0000);
    let writes = reset_all_interrupts();
    assert_eq!(writes.len(), 48);
    assert_eq!(writes[0], (0x10, 0x1_0000));
    assert_eq!(writes[47], (0x10 + 47, 0));

    let b = IoApicRedirectionBuilder { reg: 0 }
        .with_vector(0x30)
        .with_mask(true)
        .with_destination(DestinationType::Logical(0x5));
    assert_eq!(b.reg, 0x30 | 0x1_0000 | 0x800 | (5u64 << 56));
}

#[test]
fn ps2_decisions() {
    let ps2 = Ps2;
    assert!(ps2.has_data(0x01));
    assert!(!ps2.has_data(0x02));
    assert!(ps2.input_buffer_full(0x02));
    assert_eq!(classify_reply(0xFA), Reply::Ack);
    assert_eq!(classify_reply(0xFE), Reply::Resend);
    assert_eq!(classify_reply(0x12), Reply::Unexpected(0x12));
    assert_eq!(route_data(0x00), DataRoute::NoData);
    assert_eq!(route_data(0x81), DataRoute::Discard);
    assert_eq!(route_data(0x21), DataRoute::Mouse);
    assert_eq!(route_data(0x01), DataRoute::Keyboard);

    let mut w = CommandWriter::new();
    assert_eq!(w.on_reply(None), CommandStep::Retry);
    assert_eq!(w.on_reply(Some(Reply::Resend)), CommandStep::Retry);
    assert_eq!(w.on_reply(Some(Reply::Resend)), CommandStep::Retry);
    assert_eq!(w.on_reply(Some(Reply::Resend)), CommandStep::GiveUp);
    let mut w = CommandWriter::new();
    assert_eq!(w.on_reply(Some(Reply::Ack)), CommandStep::Done);
}

#[test]
fn pci_addresses_and_probe() {
    assert_eq!(pci_config_address(1, 2, 3, 0x10), 0x8000_0000 | (1 << 16) | (2 << 11) | (3 << 8) | 0x10);
    let mut it = PciDevicePropeIterator::new();
    assert_eq!(it.next_address(), Some((0, 0, 0)));
    assert_eq!(it.next_address(), Some((0, 0, 1)));

    let absent = ConfigReadings {
        vendor_id: 0xffff,
        device_id: 0,
        class_dword: 0,
        header_type: 0,
        bars: [0; 6],
        probed_bars: [0; 6],
        interrupt_info: 0,
        capabilities_ptr: 0,
    };
    assert!(PciDeviceConfig::probe(0, 1, 0, &absent).is_none());

    let nic = ConfigReadings {
        vendor_id: 0x8086,
        device_id: 0x100e,
        class_dword: 0x0200_0000,
        header_type: 0,
        bars: [0xfebc_0000, 0xc001, 0, 0, 0, 0],
        probed_bars: [0xfffe_0000, 0xffff_ffc1, 0, 0, 0, 0],
        interrupt_info: 0x010b,
        capabilities_ptr: 0,
    };
    let config = PciDeviceConfig::probe(0, 3, 0, &nic).expect("device");
    assert_eq!(config.vendor_id, 0x8086);
    assert_eq!(config.interrupt_line, 0x0b);
    assert_eq!(config.interrupt_pin, 1);
    assert_eq!(config.base_address[0].get_memory(), Some((0xfebc_0000, 0x2_0000, false)));
    assert_eq!(config.base_address[1].get_io(), Some((0xc000, 0x40)));
    assert!(matches!(config.base_address[2], PciBar::NoBar));
}

#[test]
fn e1000_mac_and_eeprom() {
    let mac = read_mac_address(0x5452, 0x1200, 0x5634);
    assert_eq!(mac.bytes(), &[0x52, 0x54, 0x00, 0x12, 0x34, 0x56]);
    assert_eq!(eeprom_read_request(2), (2 << 8) | 1);
}

#[test]
fn io_apic_assignment_plan() {
    let overrides = [InterruptSourceOverride { bus: 0, source: 9, global_system_interrupt: 30, flags: 0 }];
    let (io_apic, input, entry) = assign_io_irq(&overrides, &[0, 24], 2, 1, 5, 9, 0x41);
    assert_eq!((io_apic, input), (1, 6));
    assert_eq!(entry.reg, 0x41 | (5u64 << 59));
    let (io_apic, input, entry) = assign_io_irq(&overrides, &[0, 24], 1, 0, 0, 4, 0x22);
    assert_eq!((io_apic, input), (0, 4));
    assert_eq!(entry.reg, 0x22);
}

#[test]
fn nested_interrupt_masking() {
    let mut cpu = Cpu::empty();
    cpu.init(0, 2);
    assert_eq!(cpu.apic_id(), 2);
    // interrupts were on: the outermost section masks them
    assert!(cpu.push_cli(true));
    assert!(!cpu.push_cli(false));
    assert_eq!(cpu.n_cli(), 2);
    assert!(!cpu.pop_cli(false));
    // leaving the outermost one enables them again
    assert!(cpu.pop_cli(false));
    assert_eq!(cpu.n_cli(), 0);

    // interrupts were off: they stay off
    assert!(cpu.push_cli(false));
    assert!(!cpu.pop_cli(false));

    assert!(interrupts_disabled(0x2));
    assert!(!interrupts_disabled(0x202));
}

#[test]
fn local_apic_register_values() {
    assert_eq!(initialize_spurious_interrupt(0x2F), 0x12F);
    assert_eq!(disable_local_interrupts().reg, 0x1_0000);
    let (divide, initial, entry) = initialize_timer(0x30);
    assert_eq!((divide, initial, entry.reg), (0b1011, 0x100_0000, 0x2_0030));
    assert_eq!(setup_error_interrupt(0x31).reg, 0x31);

    let b = LocalVectorRegisterBuilder { reg: 0xFFFF_FFFF }
        .with_vector(0x12)
        .with_message_type(0b1101)
        .with_trigger_mode(false)
        .with_mask(false)
        .with_periodic_timer(false);
    assert_eq!(b.reg, 0xFFFC_7D12);
}

fn cpu_entry(apic_id: u8, flags: u32) -> InterruptControllerStruct {
    InterruptControllerStruct::ProcessorLocalApic(ProcessorLocalApic { acpi_processor_id: apic_id, apic_id, flags })
}

fn io_apic_entry(address: u32) -> InterruptControllerStruct {
    InterruptControllerStruct::IoApic(IoApic {
        io_apic_id: 0,
        reserved: 0,
        io_apic_address: address,
        global_system_interrupt_base: 0,
    })
}

#[test]
fn madt_configuration() {
    let madt = Apic {
        local_apic_address: 0xFEE0_0000,
        flags: 1,
        interrupt_controller_structs: vec![
            cpu_entry(0, 1),
            cpu_entry(1, 0), // disabled
            cpu_entry(4, 1),
            io_apic_entry(0xFEC0_0000),
            InterruptControllerStruct::InterruptSourceOverride(InterruptSourceOverride {
                bus: 0,
                source: 0,
                global_system_interrupt: 2,
                flags: 0,
            }),
            InterruptControllerStruct::LocalApicNmi(LocalApicNmi { acpi_processor_uid: 0xFF, flags: 0, local_apic_lint: 1 }),
            InterruptControllerStruct::Unknown { struct_type: 0x10, bytes: vec![1, 2] },
        ],
    };
    let config = madt_config(&madt, 0xFEE0_0900).expect("config");
    assert_eq!(config.apic_address, 0xFEE0_0000);
    assert!(!config.msr_address_differs);
    assert_eq!(config.cpu_apic_ids, vec![0, 4]);
    assert_eq!(config.io_apics.len(), 1);
    assert_eq!(config.source_overrides.len(), 1);

    // an address override wins; the processor register may disagree
    let mut moved = madt;
    moved.interrupt_controller_structs.push(InterruptControllerStruct::LocalApicAddressOverride(
        LocalApicAddressOverride { reserved: 0, local_apic_address: 0x1_0000_0000 },
    ));
    let config = madt_config(&moved, 0x1234_5000).expect("config");
    assert_eq!(config.apic_address, 0x1_0000_0000);
    assert!(config.msr_address_differs);
}

#[test]
fn madt_configuration_errors() {
    let with = |structs: Vec<InterruptControllerStruct>, address: u32| Apic {
        local_apic_address: address,
        flags: 0,
        interrupt_controller_structs: structs,
    };
    let err = |madt: Apic| madt_config(&madt, 0).err();
    assert_eq!(err(with(vec![io_apic_entry(0xFEC0_0000)], 0xFEE0_0000)), Some(ApicError::NoCpus));
    assert_eq!(err(with(vec![cpu_entry(0, 1)], 0xFEE0_0000)), Some(ApicError::NoIoApics));
    assert_eq!(err(with(vec![cpu_entry(0, 1), io_apic_entry(0xFEC0_0000)], 0)), Some(ApicError::ZeroApicAddress));
    assert_eq!(
        err(with(vec![cpu_entry(0, 1), io_apic_entry(0xFEC0_0000)], 0xFEE0_0008)),
        Some(ApicError::UnalignedApicAddress)
    );
    assert_eq!(err(with(vec![cpu_entry(0, 1), io_apic_entry(0xFEC0_0004)], 0xFEE0_0000)), Some(ApicError::BadIoApicAddress));
    assert_eq!(
        err(with(
            vec![InterruptControllerStruct::NonMaskableInterrupt(NonMaskableInterrupt { flags: 0, global_system_interrupt: 0 })],
            0xFEE0_0000
        )),
        Some(ApicError::NonMaskableInterrupt)
    );
    assert_eq!(
        err(with(
            vec![InterruptControllerStruct::LocalApicNmi(LocalApicNmi { acpi_processor_uid: 0, flags: 0, local_apic_lint: 1 })],
            0xFEE0_0000
        )),
        Some(ApicError::UnexpectedLocalApicNmi)
    );
    // at most eight processors are kept
    let many: Vec<_> = (0..10).map(|i| cpu_entry(i, 1)).chain([io_apic_entry(0xFEC0_0000)]).collect();
    assert_eq!(madt_config(&with(many, 0xFEE0_0000), 0).unwrap().cpu_apic_ids.len(), 8);
}

#[test]
fn ring_push_replace_drops_oldest() {
    let mut ring: RingBuffer<u32, 3> = RingBuffer::empty();
    ring.push_replace(1);
    ring.push_replace(2);
    ring.push_replace(3);
    assert_eq!(ring.pop(), Some(2));
    assert_eq!(ring.pop(), Some(3));
    assert_eq!(ring.pop(), None);
}

#[test]
fn idt_entry_setters_chain() {
    let mut e = InterruptDescriptorTableEntry::empty();
    e.set_handler(0x1234_5678_9ABC_DEF0, 8).set_stack_index(Some(2)).set_privilege_level(3);
    assert_eq!(e.ist, 3);
    assert_eq!(e.selector, 8);
    assert_eq!(e.flags, 0x8e | 0x60);
    assert_eq!(e.zero, 0);
}
