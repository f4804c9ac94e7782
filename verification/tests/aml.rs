use emerald_kernel::acpi::aml::parser::resource_template::{DmaSpeedType, DmaTransferWidth, DmaTrasferType};
use emerald_kernel::acpi::aml::execution::{AmlExecutionError, DataObject, ExecutionContext};
use emerald_kernel::acpi::aml::parser::{
    parse_aml, AccessType, AmlCode, AmlParseError, AmlTerm, FieldDef, FieldElement, FieldUpdateRule,
    Buffer, IntegerData, MethodObj, PackageElement, Parser, RegionObj, RegionSpace, ScopeObj, State, Target,
    TermArg, UnresolvedDataObject,
};
use emerald_kernel::acpi::aml::parser::resource_template::{ResourceMacro, ResourceTemplate};
use emerald_kernel::acpi::aml::structured::{ElementType, StructuredAml, StructuredAmlError};
use emerald_kernel::acpi::aml::Aml;
use emerald_kernel::acpi::{fetch_s_array, pm1_event_to_clear, Acpi, AcpiError};

fn byte(v: u8) -> PackageElement<UnresolvedDataObject> {
    PackageElement::DataObject(UnresolvedDataObject::Integer(IntegerData::ByteConst(v)))
}

fn zero() -> PackageElement<UnresolvedDataObject> {
    PackageElement::DataObject(UnresolvedDataObject::Integer(IntegerData::ConstZero))
}

fn keys(children: &[(String, ElementType)]) -> Vec<&str> {
    children.iter().map(|(k, _)| k.as_str()).collect()
}

fn child<'a>(children: &'a [(String, ElementType)], key: &str) -> &'a ElementType {
    &children.iter().find(|(k, _)| k == key).expect("child").1
}

#[test]
fn test_structure() {
    let code = AmlCode {
        term_list: vec![
            AmlTerm::Scope(ScopeObj {
                name: "\\".to_string(),
                term_list: vec![
                    AmlTerm::Region(RegionObj {
                        name: "DBG_".to_string(),
                        region_space: RegionSpace::SystemIO,
                        region_offset: TermArg::DataObject(UnresolvedDataObject::Integer(
                            IntegerData::WordConst(1026),
                        )),
                        region_length: TermArg::DataObject(UnresolvedDataObject::Integer(
                            IntegerData::ConstOne,
                        )),
                    }),
                    AmlTerm::Field(FieldDef {
                        name: "DBG_".to_string(),
                        access_type: AccessType::Byte,
                        need_lock: false,
                        update_rule: FieldUpdateRule::Preserve,
                        fields: vec![FieldElement::Named("DBGB".to_string(), 8)],
                    }),
                    AmlTerm::Method(MethodObj {
                        name: "DBUG".to_string(),
                        flags: 1,
                        term_list: vec![
                            AmlTerm::ToHexString(TermArg::Arg(0), Box::new(Target::Local(0))),
                            AmlTerm::ToBuffer(TermArg::Local(0), Box::new(Target::Local(0))),
                        ],
                    }),
                ],
            }),
            AmlTerm::Method(MethodObj {
                name: "\\_GPE._E02".to_string(),
                flags: 0,
                term_list: vec![AmlTerm::MethodCall("\\_SB_.CPUS.CSCN".to_string(), vec![])],
            }),
        ],
    };

    let structured = StructuredAml::parse(&code).expect("structure");

    assert_eq!(keys(&structured.root.children), vec!["DBG_", "DBUG", "_GPE"]);

    match child(&structured.root.children, "DBG_") {
        ElementType::RegionFields(region, fields) => {
            assert!(region.is_some());
            assert!(!fields.is_empty());
        }
        _ => panic!("DBG_ is not a region"),
    }
    match child(&structured.root.children, "DBUG") {
        ElementType::Method(method) => {
            assert_eq!(method.name, "DBUG");
            assert_eq!(method.term_list.len(), 2);
        }
        _ => panic!("DBUG is not a method"),
    }
    match child(&structured.root.children, "_GPE") {
        ElementType::ScopeOrDevice(scope) => {
            assert_eq!(keys(&scope.children), vec!["_E02"]);
            match child(&scope.children, "_E02") {
                ElementType::Method(method) => {
                    assert_eq!(method.name, "_E02");
                    assert_eq!(method.term_list.len(), 1);
                }
                _ => panic!("_E02 is not a method"),
            }
        }
        _ => panic!("_GPE is not a scope"),
    }
}

fn sleep_code() -> AmlCode {
    AmlCode {
        term_list: vec![
            AmlTerm::NameObj(
                "_S5_".to_string(),
                UnresolvedDataObject::Package(4, vec![byte(5), byte(5), zero(), zero()]),
            ),
            AmlTerm::NameObj(
                "_S4_".to_string(),
                UnresolvedDataObject::Package(4, vec![byte(4), byte(4), zero(), zero()]),
            ),
        ],
    }
}

fn package_bytes(ctx: &ExecutionContext, structured: &StructuredAml, name: &str) -> Vec<u8> {
    ctx.execute(structured, name, &[])
        .expect("label")
        .as_package()
        .expect("package")
        .iter()
        .iter()
        .map(|d| {
            d.as_data()
                .expect("data")
                .as_integer()
                .expect("integer")
                .as_u8()
                .unwrap()
        })
        .collect::<Vec<_>>()
}

#[test]
fn test_execute_normal_sleep_package() {
    let code = sleep_code();
    let structured = StructuredAml::parse(&code).expect("structure");
    let ctx = ExecutionContext {};
    assert_eq!(package_bytes(&ctx, &structured, "\\_S5_"), vec![5, 5, 0, 0]);
    assert_eq!(package_bytes(&ctx, &structured, "\\_S4_"), vec![4, 4, 0, 0]);
}

#[test]
fn execute_lookup_errors() {
    let structured = StructuredAml::parse(&sleep_code()).expect("structure");
    let ctx = ExecutionContext {};
    assert!(matches!(
        ctx.execute(&structured, "_S5_", &[]),
        Err(AmlExecutionError::StructuredAmlError(StructuredAmlError::QueryPathMustBeAbsolute))
    ));
    assert!(matches!(
        ctx.execute(&structured, "\\", &[]),
        Err(AmlExecutionError::StructuredAmlError(StructuredAmlError::CannotQueryRoot))
    ));
    match ctx.execute(&structured, "\\_S3_", &[]) {
        Err(AmlExecutionError::LableNotFound(l)) => assert_eq!(l, "\\_S3_"),
        other => panic!("unexpected {:?}", other.is_ok()),
    }
    match ctx.execute(&structured, "\\_S5_.ABCD", &[]) {
        Err(AmlExecutionError::StructuredAmlError(StructuredAmlError::PartOfPathNotScope(p))) => {
            assert_eq!(p, "_S5_")
        }
        other => panic!("unexpected {:?}", other.is_ok()),
    }
}

#[test]
fn execute_method_is_unsupported() {
    let code = AmlCode {
        term_list: vec![AmlTerm::Method(MethodObj {
            name: "_PTS".to_string(),
            flags: 1,
            term_list: vec![],
        })],
    };
    let structured = StructuredAml::parse(&code).expect("structure");
    let ctx = ExecutionContext {};
    match ctx.execute(&structured, "\\_PTS", &[]) {
        Err(AmlExecutionError::Unsupported(l)) => assert_eq!(l, "\\_PTS"),
        other => panic!("unexpected {:?}", other.is_ok()),
    }
}

#[test]
fn execute_integer_and_string() {
    let code = AmlCode {
        term_list: vec![
            AmlTerm::NameObj(
                "NUM_".to_string(),
                UnresolvedDataObject::Integer(IntegerData::DWordConst(0x1234_5678)),
            ),
            AmlTerm::NameObj("STR_".to_string(), UnresolvedDataObject::String("hello".to_string())),
        ],
    };
    let structured = StructuredAml::parse(&code).expect("structure");
    let ctx = ExecutionContext {};
    match ctx.execute(&structured, "\\NUM_", &[]).expect("integer") {
        DataObject::Integer(i) => assert_eq!(i.as_u64(), 0x1234_5678),
        _ => panic!("not an integer"),
    }
    match ctx.execute(&structured, "\\STR_", &[]).expect("string") {
        DataObject::String(s) => assert_eq!(s, "hello"),
        _ => panic!("not a string"),
    }
}

/// `Name (_S5_, Package (4) { 5, 5, 0, 0 })` in AML byte code.
const S5_BYTES: [u8; 14] = [
    0x08, b'_', b'S', b'5', b'_', 0x12, 0x08, 0x04, 0x0A, 0x05, 0x0A, 0x05, 0x00, 0x00,
];

#[test]
fn parse_name_package_bytes() {
    let code = parse_aml(&S5_BYTES).expect("parse");
    assert_eq!(code.term_list.len(), 1);
    match &code.term_list[0] {
        AmlTerm::NameObj(name, UnresolvedDataObject::Package(size, elements)) => {
            assert_eq!(name, "_S5_");
            assert_eq!(*size, 4);
            assert_eq!(elements.len(), 4);
        }
        _ => panic!("not a named package"),
    }
}

#[test]
fn parse_errors() {
    assert!(matches!(parse_aml(&[0x5B, 0xFF]), Err(AmlParseError::UnknownOpcode(0xFF))));
    assert!(matches!(parse_aml(&[0x08]), Err(AmlParseError::UnexpectedEndOfCode)));
    assert_eq!(parse_aml(&[]).expect("empty code").term_list.len(), 0);
}

#[test]
fn fetch_sleep_package_from_bytes() {
    let aml = Aml::parse(&S5_BYTES).expect("aml");
    assert_eq!(fetch_s_array(&aml, "\\_S5_"), Some([5, 5]));
    assert_eq!(fetch_s_array(&aml, "\\_S3_"), None);
}

#[test]
fn fetch_sleep_package_keeps_three_bits() {
    // Name (_S1_, Package (2) { 0x0F, One })
    let bytes = [0x08, b'_', b'S', b'1', b'_', 0x12, 0x05, 0x02, 0x0A, 0x0F, 0x01];
    let aml = Aml::parse(&bytes).expect("aml");
    assert_eq!(fetch_s_array(&aml, "\\_S1_"), Some([7, 1]));
}

#[test]
fn sleep_controls_from_tables() {
    let amls = vec![Aml::parse(&S5_BYTES).expect("aml")];
    let acpi = Acpi::from_tables(&amls);
    assert_eq!(acpi.slp_type_data[4], Some([5, 5]));
    assert_eq!(acpi.slp_type_data[0], None);

    assert!(matches!(acpi.sleep_controls(0, 0, None), Err(AcpiError::InvalidSleepType)));
    assert!(matches!(acpi.sleep_controls(6, 0, None), Err(AcpiError::InvalidSleepType)));
    assert!(matches!(acpi.sleep_controls(3, 0, None), Err(AcpiError::SleepTypeNotAvailable)));

    let (a, b) = acpi.sleep_controls(5, 0x1C01, Some(0xFFFF)).expect("controls");
    assert_eq!(a, 0x0001 | (5 << 10) | 0x2000);
    assert_eq!(b, Some((0xFFFF & !0x1C00) | (5 << 10)));
}

#[test]
fn pm1_events_by_priority() {
    assert_eq!(pm1_event_to_clear(0x0020 | 0x0100), Some(0x0020));
    assert_eq!(pm1_event_to_clear(0x0200 | 0x0001), Some(0x0200));
    assert_eq!(pm1_event_to_clear(0x0400), Some(0x0400));
    assert_eq!(pm1_event_to_clear(0x0100), Some(0x0100));
    assert_eq!(pm1_event_to_clear(0x0001), Some(0x0001));
    assert_eq!(pm1_event_to_clear(0x8000), None);
}

#[test]
fn method_flags_decode() {
    let method = MethodObj { name: String::from("_PTS"), flags: 0x2B, term_list: vec![] };
    assert_eq!(method.arg_count(), 3);
    assert!(method.is_serialized());
    assert_eq!(method.sync_level(), 2);

    let plain = MethodObj { name: String::from("_WAK"), flags: 0x01, term_list: vec![] };
    assert_eq!(plain.arg_count(), 1);
    assert!(!plain.is_serialized());
    assert_eq!(plain.sync_level(), 0);
}

#[test]
fn control_opcodes_parse_to_noop_and_break() {
    let code = parse_aml(&[0xA3, 0xA5, 0xA3]).expect("control opcodes");
    assert_eq!(code.term_list.len(), 3);
    assert!(matches!(code.term_list[0], AmlTerm::Noop));
    assert!(matches!(code.term_list[1], AmlTerm::Break));
    assert!(matches!(code.term_list[2], AmlTerm::Noop));
}

#[test]
fn empty_body_parses() {
    assert!(Aml::parse(&[]).is_ok());
    assert!(Aml::parse(&[0xA3, 0xA5, 0xA3]).is_ok());
}

#[test]
fn package_elements_from_bytes() {
    let mut state = State::new();
    let code = [0x01u8, 0x0A, 0x07, 0x41, 0x42, 0x43, 0x44];
    let mut parser = Parser::new(&code);
    let one = parser.parse_package_element(&mut state).expect("constant one");
    assert!(matches!(one, PackageElement::DataObject(UnresolvedDataObject::Integer(IntegerData::ConstOne))));
    assert_eq!(parser.pos, 1);
    let seven = parser.parse_package_element(&mut state).expect("byte constant");
    assert!(matches!(seven, PackageElement::DataObject(UnresolvedDataObject::Integer(IntegerData::ByteConst(7)))));
    let name = parser.parse_package_element(&mut state).expect("name");
    match name {
        PackageElement::Name(n) => assert_eq!(n, "ABCD"),
        _ => panic!("expected a name"),
    }
    assert_eq!(parser.pos, 7);
    assert!(matches!(parser.parse_package_element(&mut state), Err(AmlParseError::UnexpectedEndOfCode)));
    let mut bad = Parser::new(&[0x70]);
    assert!(matches!(bad.parse_package_element(&mut state), Err(AmlParseError::InvalidTermArgInPackage)));
}

#[test]
fn argument_prediction_on_simple_arguments() {
    let mut state = State::new();
    let seven = [0x60u8, 0x61, 0x62, 0x00, 0x01, 0xFF, 0x68, 0x69];
    assert_eq!(Parser::new(&seven).predict_possible_args(&mut state, false, "FOO_"), 7);
    let two = [0x60u8, 0x68];
    assert_eq!(Parser::new(&two).predict_possible_args(&mut state, false, "FOO_"), 2);
    assert_eq!(Parser::new(&two).predict_possible_args(&mut state, true, "FOO_"), 1);
    assert_eq!(Parser::new(&[]).predict_possible_args(&mut state, true, "FOO_"), 0);
}

fn buffer_of(data: Vec<u8>) -> Buffer {
    Buffer { size: Box::new(TermArg::DataObject(UnresolvedDataObject::Integer(IntegerData::ConstZero))), data }
}

#[test]
fn resource_template_of_end_tags() {
    let empty = ResourceTemplate::try_parse_buffer(&buffer_of(vec![0x79, 0x00])).expect("empty template");
    assert_eq!(empty.expect("looks like a template").items.len(), 0);
    let two = ResourceTemplate::try_parse_buffer(&buffer_of(vec![0x38, 0x38, 0x79, 0x00])).expect("template");
    let items = two.expect("looks like a template").items;
    assert_eq!(items.len(), 2);
    assert!(matches!(items[0], ResourceMacro::EndDependentFunctions));
    assert!(matches!(items[1], ResourceMacro::EndDependentFunctions));
    assert!(matches!(ResourceTemplate::try_parse_buffer(&buffer_of(vec![0x38, 0x00])), Ok(None)));
    assert!(matches!(
        ResourceTemplate::try_parse_buffer(&buffer_of(vec![0x79, 0x00, 0x79, 0x00])),
        Err(AmlParseError::ResourceTemplateReservedTag)
    ));
}

#[test]
fn logical_not_equal_is_one_operation() {
    let mut state = State::new();
    let code = [0x93u8, 0x60, 0x61];
    let mut p = Parser::new(&code);
    let r = p.try_parse_term(&mut state, 0x92).expect("term");
    assert!(matches!(r, Some(AmlTerm::LNotEqual(TermArg::Local(0), TermArg::Local(1)))));
    assert_eq!(p.pos, 3);
}

#[test]
fn subtract_keeps_operand_order() {
    let mut state = State::new();
    let code = [0x60u8, 0x0A, 0x07, 0x61];
    let mut p = Parser::new(&code);
    let r = p.try_parse_term(&mut state, 0x74).expect("term");
    match r {
        Some(AmlTerm::Subtract(a, b, t)) => {
            assert!(matches!(a, TermArg::Local(0)));
            assert!(matches!(b, TermArg::DataObject(UnresolvedDataObject::Integer(IntegerData::ByteConst(7)))));
            assert!(matches!(*t, Target::Local(1)));
        }
        _ => panic!("expected a subtraction"),
    }
    assert_eq!(p.pos, 4);
}

#[test]
fn method_is_recorded_with_its_argument_count() {
    let mut state = State::new();
    let code = [0x06u8, b'A', b'B', b'C', b'D', 0x02];
    let mut p = Parser::new(&code);
    let r = p.try_parse_term(&mut state, 0x14).expect("method");
    match r {
        Some(AmlTerm::Method(m)) => {
            assert_eq!(m.name, "ABCD");
            assert_eq!(m.flags, 0x02);
            assert_eq!(m.term_list.len(), 0);
        }
        _ => panic!("expected a method"),
    }
    assert_eq!(p.pos, 6);
    assert_eq!(state.find_method("ABCD"), Some(2));
}

#[test]
fn store_keeps_its_operands() {
    let code = parse_aml(&[0x70, 0x0A, 0x05, 0x60]).expect("store");
    assert_eq!(code.term_list.len(), 1);
    match &code.term_list[0] {
        AmlTerm::Store(a, t) => {
            assert!(matches!(a, TermArg::DataObject(UnresolvedDataObject::Integer(IntegerData::ByteConst(5)))));
            assert!(matches!(**t, Target::Local(0)));
        }
        _ => panic!("expected a store"),
    }
    assert!(Aml::parse(&[0x70, 0x0A, 0x05, 0x60]).is_ok());
}

#[test]
fn package_length_lead_error_position() {
    let code = [0x50u8, 0, 0, 0];
    let mut p = Parser::new(&code);
    assert!(matches!(p.get_pkg_length(), Err(AmlParseError::InvalidPkgLengthLead)));
    assert_eq!(p.pos, 1);
}

#[test]
fn non_data_byte_is_not_consumed() {
    let mut state = State::new();
    let code = [0x60u8];
    let mut p = Parser::new(&code);
    assert!(matches!(p.try_parse_data_object(&mut state), Ok(None)));
    assert_eq!(p.pos, 0);
    assert!(state.names.is_empty() && state.methods.is_empty());
    let arg = p.parse_term_arg_general(&mut state, true, true).expect("local");
    assert!(matches!(arg, TermArg::Local(0)));
    assert_eq!(p.pos, 1);
    assert!(state.names.is_empty() && state.methods.is_empty());
}

#[test]
fn field_list_elements() {
    let mut state = State::new();
    let code = [0x01u8, b'F', b'L', b'D', b'1', 0x08, 0x00, 0x08];
    let mut p = Parser::new(&code);
    let (flags, fields) = p.parse_fields_list_and_flags(&mut state).expect("fields");
    assert_eq!(flags, 0x01);
    assert_eq!(fields.len(), 2);
    match &fields[0] {
        FieldElement::Named(n, w) => {
            assert_eq!(n, "FLD1");
            assert_eq!(*w, 8);
        }
        _ => panic!("expected a named field"),
    }
    assert!(matches!(fields[1], FieldElement::Offset(2)));
    assert!(state.find_name("FLD1"));
}

#[test]
fn unaligned_field_offset() {
    let mut state = State::new();
    let code = [0x01u8, b'F', b'L', b'D', b'1', 0x03, 0x00, 0x08];
    let mut p = Parser::new(&code);
    assert!(matches!(
        p.parse_fields_list_and_flags(&mut state),
        Err(AmlParseError::UnalignedFieldElementOffset)
    ));
}

#[test]
fn io_descriptor_decodes() {
    let bytes = [0x47u8, 0x01, 0xF8, 0x03, 0xFF, 0x03, 0x01, 0x08];
    let mut p = emerald_kernel::acpi::aml::parser::resource_template::Parser::new(&bytes, bytes.len());
    match ResourceMacro::try_parse_buffer(&mut p).expect("descriptor") {
        Some(ResourceMacro::Io { is_16_bit_decode, min_addr, max_addr, alignment, len }) => {
            assert!(is_16_bit_decode);
            assert_eq!(min_addr, 0x03F8);
            assert_eq!(max_addr, 0x03FF);
            assert_eq!(alignment, 1);
            assert_eq!(len, 8);
        }
        _ => panic!("expected an I/O descriptor"),
    }
    assert_eq!(p.pos, 8);
}

#[test]
fn template_with_io_descriptor() {
    let data = vec![0x47, 0x01, 0xF8, 0x03, 0xFF, 0x03, 0x01, 0x08, 0x79, 0x00];
    let t = ResourceTemplate::try_parse_buffer(&buffer_of(data)).expect("template").expect("looks like one");
    assert_eq!(t.items.len(), 1);
    assert!(matches!(
        t.items[0],
        ResourceMacro::Io { is_16_bit_decode: true, min_addr: 0x03F8, max_addr: 0x03FF, alignment: 1, len: 8 }
    ));
    // an unknown small tag leaves the template undecoded
    let unknown = vec![0x38, 0x08, 0x79, 0x00];
    assert!(matches!(ResourceTemplate::try_parse_buffer(&buffer_of(unknown)), Ok(None)));
}

#[test]
fn generic_register_descriptor() {
    let bytes = [0x82u8, 0x0C, 0x00, 0x01, 0x08, 0x00, 0x01, 0x00, 0x10, 0, 0, 0, 0, 0, 0];
    let mut p = emerald_kernel::acpi::aml::parser::resource_template::Parser::new(&bytes, bytes.len());
    match ResourceMacro::try_parse_buffer(&mut p).expect("descriptor") {
        Some(ResourceMacro::Register { address_space, bit_width, offset, address, .. }) => {
            assert!(matches!(address_space, RegionSpace::SystemIO));
            assert_eq!(bit_width, 8);
            assert_eq!(offset, 0);
            assert_eq!(address, 0x1000);
        }
        _ => panic!("expected a register descriptor"),
    }
}

#[test]
fn device_wins_a_scope_merge() {
    let code = AmlCode {
        term_list: vec![
            AmlTerm::Scope(ScopeObj { name: "\\_SB_".to_string(), term_list: vec![] }),
            AmlTerm::Device(ScopeObj { name: "\\_SB_".to_string(), term_list: vec![] }),
        ],
    };
    let s = StructuredAml::parse(&code).expect("structure");
    let sb = child(&s.root.children, "_SB_");
    match sb {
        ElementType::ScopeOrDevice(scope) => {
            assert!(matches!(scope.ty, emerald_kernel::acpi::aml::parser::ScopeType::Device))
        }
        _ => panic!("expected a scope"),
    }
}

#[test]
fn unknown_opcode_is_reported() {
    assert!(matches!(parse_aml(&[0x01]), Err(AmlParseError::UnknownOpcode(0x01))));
    assert!(matches!(Aml::parse(&[0x9A, 0x00]), Err(AmlParseError::UnknownOpcode(0x9A))));
}

#[test]
fn simple_statements_with_constants() {
    let code = parse_aml(&[0xA4, 0x0B, 0x34, 0x12, 0x75, 0x61, 0x5B, 0x22, 0x0A, 0x0A]).expect("statements");
    assert_eq!(code.term_list.len(), 3);
    assert!(matches!(
        code.term_list[0],
        AmlTerm::Return(TermArg::DataObject(UnresolvedDataObject::Integer(IntegerData::WordConst(0x1234))))
    ));
    match &code.term_list[1] {
        AmlTerm::Increment(t) => assert!(matches!(**t, Target::Local(1))),
        _ => panic!("expected an increment"),
    }
    assert!(matches!(
        code.term_list[2],
        AmlTerm::Sleep(TermArg::DataObject(UnresolvedDataObject::Integer(IntegerData::ByteConst(10))))
    ));
}

#[test]
fn name_argument_keeps_its_name() {
    let mut state = State::new();
    state.add_name("COUN".to_string());
    // Add(COUN, Local0, Local1)
    let code = [b'C', b'O', b'U', b'N', 0x60, 0x61];
    let mut p = Parser::new(&code);
    let r = p.try_parse_term(&mut state, 0x72).expect("add");
    match r {
        Some(AmlTerm::Add(a, b, t)) => {
            match a {
                TermArg::Name(n) => assert_eq!(n, "COUN"),
                _ => panic!("expected the name first"),
            }
            assert!(matches!(b, TermArg::Local(0)));
            assert!(matches!(*t, Target::Local(1)));
        }
        _ => panic!("expected an addition"),
    }
    assert_eq!(p.pos, 6);
}

#[test]
fn recorded_method_is_called_with_its_arguments() {
    let mut state = State::new();
    state.add_method("FUNC", 2);
    let code = [b'F', b'U', b'N', b'C', 0x60, 0x01];
    let mut p = Parser::new(&code);
    match p.parse_term_arg(&mut state).expect("call") {
        TermArg::Expression(e) => match *e {
            AmlTerm::MethodCall(n, args) => {
                assert_eq!(n, "FUNC");
                assert_eq!(args.len(), 2);
            }
            _ => panic!("expected a call"),
        },
        _ => panic!("expected a call"),
    }
    assert_eq!(state.find_method("\\_SB_.FUNC"), Some(2));
}

#[test]
fn dma_descriptors() {
    let bytes = [0x2Au8, 0x04, 0x45];
    let mut p = emerald_kernel::acpi::aml::parser::resource_template::Parser::new(&bytes, bytes.len());
    match ResourceMacro::try_parse_buffer(&mut p).expect("dma") {
        Some(ResourceMacro::Dma { speed_ty, is_bus_master, transfer_type, channels_mask }) => {
            assert!(matches!(speed_ty, DmaSpeedType::Compatibility) == false);
            assert!(matches!(speed_ty, DmaSpeedType::TypeB));
            assert!(is_bus_master);
            assert!(matches!(transfer_type, DmaTrasferType::Transfer8_16));
            assert_eq!(channels_mask, 0x04);
        }
        _ => panic!("expected a DMA descriptor"),
    }
    let fixed = [0x55u8, 0x34, 0x12, 0x02, 0x00, 0x02];
    let mut p = emerald_kernel::acpi::aml::parser::resource_template::Parser::new(&fixed, fixed.len());
    match ResourceMacro::try_parse_buffer(&mut p).expect("fixed dma") {
        Some(ResourceMacro::FixedDma { dma_req, channel, transfer_width }) => {
            assert_eq!(dma_req, 0x1234);
            assert_eq!(channel, 2);
            assert!(matches!(transfer_width, DmaTransferWidth::Width32Bit));
        }
        _ => panic!("expected a fixed DMA descriptor"),
    }
    let reserved = [0x55u8, 0x34, 0x12, 0x02, 0x00, 0x06];
    let mut p = emerald_kernel::acpi::aml::parser::resource_template::Parser::new(&reserved, reserved.len());
    assert!(matches!(ResourceMacro::try_parse_buffer(&mut p), Err(AmlParseError::ReservedFieldSet)));
}
