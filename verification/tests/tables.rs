use emerald_kernel::acpi::aml::parser::{AmlParseError, AmlTerm};
use emerald_kernel::acpi::tables::Xsdt;
use emerald_kernel::acpi::tables::{
    check_table_checksum, find_rsdp, get_acpi_table_bytes, init_acpi_tables, rsdt_entry_addresses,
    DescriptionHeader, DescriptorTable, DescriptorTableBody, InterruptControllerStruct, Rsdp,
    TableError, TableKind,
};

fn rsdp_bytes(revision: u8, rsdt: u32) -> Vec<u8> {
    let mut v = b"RSD PTR ".to_vec();
    v.push(0); // checksum, fixed below
    v.extend_from_slice(b"EMRLD ");
    v.push(revision);
    v.extend_from_slice(&rsdt.to_le_bytes());
    let sum: u8 = v.iter().fold(0u8, |a, b| a.wrapping_add(*b));
    v[8] = 0u8.wrapping_sub(sum);
    // the rest of a second revision pointer
    v.extend_from_slice(&36u32.to_le_bytes());
    v.extend_from_slice(&0x1122_3344_5566_7788u64.to_le_bytes());
    v.extend_from_slice(&[0, 0, 0, 0]);
    v
}

#[test]
fn finds_the_root_pointer() {
    let mut mem = vec![0u8; 16];
    // a signature with a wrong checksum first
    mem[0..8].copy_from_slice(b"RSD PTR ");
    mem[8] = 1;
    mem.extend_from_slice(&rsdp_bytes(0, 0xE0000));
    assert_eq!(find_rsdp(&mem), Some(16));
    assert_eq!(find_rsdp(&mem[..20]), None);

    let r = Rsdp::from_memory(&mem, 16);
    assert_eq!(&r.signature, b"RSD PTR ");
    assert_eq!(r.revision, 0);
    assert_eq!(r.rsdt_address, 0xE0000);
    assert_eq!(r.xsdt_address, 0);

    let v2 = rsdp_bytes(2, 0xE0000);
    let r = Rsdp::from_memory(&v2, 0);
    assert_eq!(r.length, 36);
    assert_eq!(r.xsdt_address, 0x1122_3344_5566_7788);
}

fn header(signature: &[u8; 4], body_len: usize) -> DescriptionHeader {
    let mut h = DescriptionHeader::empty();
    h.signature = *signature;
    h.length = 36 + body_len as u32;
    h
}

#[test]
fn table_checksum() {
    let body = [1u8, 2, 3];
    let mut h = header(b"TEST", body.len());
    assert_eq!(h.to_bytes().len(), 36);
    let sum = h.sum().wrapping_add(6);
    h.checksum = 0u8.wrapping_sub(sum);
    assert!(check_table_checksum(&h, &body));
    h.checksum = h.checksum.wrapping_add(1);
    assert!(!check_table_checksum(&h, &body));
}

#[test]
fn root_table_addresses() {
    let body = [1u8, 0, 0, 0, 0, 0, 0, 0, 0x10, 0x20, 0, 0];
    assert_eq!(rsdt_entry_addresses(&body), vec![1, 0x2010]);
}

#[test]
fn apic_table_entries() {
    let mut body = Vec::new();
    body.extend_from_slice(&0xFEE0_0000u32.to_le_bytes());
    body.extend_from_slice(&1u32.to_le_bytes());
    // processor local APIC
    body.extend_from_slice(&[0, 8, 1, 2]);
    body.extend_from_slice(&1u32.to_le_bytes());
    // I/O APIC
    body.extend_from_slice(&[1, 12, 3, 0]);
    body.extend_from_slice(&0xFEC0_0000u32.to_le_bytes());
    body.extend_from_slice(&0u32.to_le_bytes());
    // interrupt source override: bus 0, source 0 -> 2
    body.extend_from_slice(&[2, 10, 0, 0]);
    body.extend_from_slice(&2u32.to_le_bytes());
    body.extend_from_slice(&0u16.to_le_bytes());

    let t = DescriptorTable::from_header_and_body(header(b"APIC", body.len()), &body).expect("apic");
    match t.body {
        DescriptorTableBody::Apic(apic) => {
            assert_eq!(apic.local_apic_address, 0xFEE0_0000);
            assert_eq!(apic.flags, 1);
            assert_eq!(apic.interrupt_controller_structs.len(), 3);
            match &apic.interrupt_controller_structs[0] {
                InterruptControllerStruct::ProcessorLocalApic(p) => {
                    assert_eq!(p.acpi_processor_id, 1);
                    assert_eq!(p.apic_id, 2);
                    assert_eq!(p.flags, 1);
                }
                _ => panic!("not a local APIC"),
            }
            match &apic.interrupt_controller_structs[1] {
                InterruptControllerStruct::IoApic(io) => {
                    assert_eq!(io.io_apic_id, 3);
                    assert_eq!(io.io_apic_address, 0xFEC0_0000);
                    assert_eq!(io.global_system_interrupt_base, 0);
                }
                _ => panic!("not an I/O APIC"),
            }
            match &apic.interrupt_controller_structs[2] {
                InterruptControllerStruct::InterruptSourceOverride(o) => {
                    assert_eq!(o.source, 0);
                    assert_eq!(o.global_system_interrupt, 2);
                }
                _ => panic!("not an override"),
            }
        }
        _ => panic!("not an APIC table"),
    }
}

#[test]
fn malformed_apic_table() {
    // an entry that claims a length of zero
    let body = [0u8, 0, 0, 0, 0, 0, 0, 0, 0, 0];
    assert!(matches!(
        DescriptorTable::from_header_and_body(header(b"APIC", body.len()), &body),
        Err(TableError::MalformedBody)
    ));
    assert!(matches!(
        DescriptorTable::from_header_and_body(header(b"APIC", 4), &[0, 0, 0, 0]),
        Err(TableError::MalformedBody)
    ));
}

#[test]
fn srat_table_words() {
    let mut body = Vec::new();
    body.extend_from_slice(&1u32.to_le_bytes());
    body.extend_from_slice(&0x1122_3344_5566_7788u64.to_le_bytes());
    let t = DescriptorTable::from_header_and_body(header(b"SRAT", body.len()), &body).expect("srat");
    match t.body {
        DescriptorTableBody::Srat(srat) => {
            assert_eq!(srat.reserved1, 1);
            assert_eq!(srat.reserved2, 0x1122_3344_5566_7788);
            assert!(srat.static_resource_allocation.is_empty());
        }
        _ => panic!("not a SRAT table"),
    }
}

#[test]
fn short_fixed_tables_are_padded() {
    let body = [1u8, 0, 0, 0];
    let t = DescriptorTable::from_header_and_body(header(b"WAET", 4), &body).expect("waet");
    assert!(matches!(t.body, DescriptorTableBody::Waet(_)));
    assert!(matches!(
        DescriptorTable::from_header_and_body(header(b"WAET", 5), &[0u8; 5]),
        Err(TableError::MalformedBody)
    ));
    let t = DescriptorTable::from_header_and_body(header(b"HPET", 2), &[1u8, 2]).expect("hpet");
    assert!(matches!(t.body, DescriptorTableBody::Hpet(_)));
}

#[test]
fn unknown_tables_keep_their_bytes() {
    let t = DescriptorTable::from_header_and_body(header(b"XYZW", 3), &[7u8, 8, 9]).expect("unknown");
    match t.body {
        DescriptorTableBody::Unknown(v) => assert_eq!(v, vec![7, 8, 9]),
        _ => panic!("not kept"),
    }
}

#[test]
fn dsdt_with_aml() {
    let body = [
        0x08, b'_', b'S', b'5', b'_', 0x12, 0x08, 0x04, 0x0A, 0x05, 0x0A, 0x05, 0x00, 0x00,
    ];
    let t = DescriptorTable::from_header_and_body(header(b"DSDT", body.len()), &body).expect("dsdt");
    assert!(matches!(t.body, DescriptorTableBody::Dsdt(_)));
    assert!(matches!(
        DescriptorTable::from_header_and_body(header(b"DSDT", 2), &[0x5B, 0xFF]),
        Err(TableError::Aml(_))
    ));
}

/// Writes a table with a correct checksum at `at` of `mem`.
fn place_table(mem: &mut [u8], at: usize, signature: &[u8; 4], body: &[u8]) {
    let mut h = header(signature, body.len());
    let sum = body.iter().fold(h.sum(), |a, b| a.wrapping_add(*b));
    h.checksum = 0u8.wrapping_sub(sum);
    let bytes = h.to_bytes();
    mem[at..at + 36].copy_from_slice(&bytes);
    mem[at + 36..at + 36 + body.len()].copy_from_slice(body);
}

const S5_AML: [u8; 14] = [
    0x08, b'_', b'S', b'5', b'_', 0x12, 0x08, 0x04, 0x0A, 0x05, 0x0A, 0x05, 0x00, 0x00,
];

fn machine_image() -> Vec<u8> {
    let mut mem = vec![0u8; 0x10_0000];
    // the root table lists a FACP and an unknown table; zero entries are skipped
    let mut root = Vec::new();
    for addr in [0x2000u32, 0, 0x4000] {
        root.extend_from_slice(&addr.to_le_bytes());
    }
    place_table(&mut mem, 0x1000, b"RSDT", &root);
    // FACP naming its DSDT at 0x3000 (the dsdt field is the second word)
    let mut facp = vec![0u8; 8];
    facp[4..8].copy_from_slice(&0x3000u32.to_le_bytes());
    place_table(&mut mem, 0x2000, b"FACP", &facp);
    place_table(&mut mem, 0x3000, b"DSDT", &S5_AML);
    place_table(&mut mem, 0x4000, b"OEMX", &[1, 2, 3]);
    let rsdp = rsdp_bytes(0, 0x1000);
    mem[0xE0100..0xE0100 + rsdp.len()].copy_from_slice(&rsdp);
    mem
}

#[test]
fn reads_all_tables_from_memory() {
    let mem = machine_image();
    let tables = init_acpi_tables(&mem, None).expect("tables");
    assert_eq!(tables.rsdp.rsdt_address, 0x1000);
    assert_eq!(&tables.rsdt.header.signature, b"RSDT");
    assert_eq!(tables.rsdt.entries.len(), 3);
    assert!(matches!(tables.rsdt.entries[0].body, DescriptorTableBody::Facp(_)));
    assert!(matches!(tables.rsdt.entries[1].body, DescriptorTableBody::Unknown(_)));
    // the DSDT comes last, from the FACP
    assert!(matches!(tables.rsdt.entries[2].body, DescriptorTableBody::Dsdt(_)));
    assert!(tables.rsdt.get_table(TableKind::Dsdt).is_some());
    assert_eq!(tables.rsdt.dsdt_address(), Some(0x3000));
}

#[test]
fn boot_loader_pointer_is_used_as_given() {
    let mem = machine_image();
    let given = Rsdp::from_memory(&rsdp_bytes(2, 0x1000), 0);
    let tables = init_acpi_tables(&mem, Some(given)).expect("tables");
    assert_eq!(tables.rsdp.revision, 2);
    assert_eq!(tables.rsdt.entries.len(), 3);
}

#[test]
fn memory_table_errors() {
    let mem = machine_image();
    // no root pointer in the BIOS area
    let mut blank = mem.clone();
    for b in &mut blank[0xE0000..0xF0000] {
        *b = 0;
    }
    assert!(matches!(init_acpi_tables(&blank, None), Err(TableError::NoRsdp)));
    assert!(matches!(init_acpi_tables(&mem[..0x1000], None), Err(TableError::NoRsdp)));

    // a listed table beyond the image
    let far = Rsdp::from_memory(&rsdp_bytes(0, 0x0F_FFF0), 0);
    assert!(matches!(init_acpi_tables(&mem, Some(far)), Err(TableError::OutOfImage)));

    // a corrupted table
    let mut bad = mem.clone();
    bad[0x4000 + 36] ^= 0xFF;
    assert!(matches!(get_acpi_table_bytes(&bad, 0x4000), Err(TableError::BadChecksum)));
    assert!(matches!(init_acpi_tables(&bad, None), Err(TableError::BadChecksum)));

    let (h, body) = get_acpi_table_bytes(&mem, 0x4000).expect("table");
    assert_eq!(&h.signature, b"OEMX");
    assert_eq!(body, vec![1, 2, 3]);
    assert!(matches!(
        DescriptorTable::from_physical_ptr(&mem, 0x3000).map(|t| t.body),
        Ok(DescriptorTableBody::Dsdt(_))
    ));
}

#[test]
fn xsdt_body_is_parsed_aml() {
    let x = Xsdt::from_body_bytes(&[0xA3, 0xA5]).expect("aml");
    let terms = &x.aml.code().term_list;
    assert_eq!(terms.len(), 2);
    assert!(matches!(terms[0], AmlTerm::Noop));
    assert!(matches!(terms[1], AmlTerm::Break));
    assert!(matches!(Xsdt::from_body_bytes(&[0x01]), Err(AmlParseError::UnknownOpcode(0x01))));
}
