//! Parser for ACPI Machine Language (AML) byte code into a tree of terms.
//!
//! The parser works on a window `[pos, end)` of the code bytes. Nested
//! packages are parsed by parsers on sub-windows. Names of methods and
//! objects found so far are shared between all parsers in a `State`, which
//! is used to guess how many arguments a method call takes.


pub mod resource_template;
mod names;
mod terms;
pub use terms::{
    control_bytes, control_term, control_terms, is_data_lead, lemma_simple_terms_declare_nothing, simple_terms, unknown_opcode_at, known_extended, known_opcode, opcode_term, parse_aml,
    term_arg_fits, terms_laid_out,
};
pub mod copy;

use vstd::prelude::*;



verus! {

/// Errors while parsing AML code.
#[derive(Debug, Clone, Copy)]
pub enum AmlParseError {
    UnexpectedEndOfCode,
    InvalidPkgLengthLead,
    InvalidTermArgInPackage,
    RemainingBytes(usize),
    CannotMoveBackward,
    InvalidTarget(u8),
    NameObjectNotContainingDataObject,
    UnalignedFieldElementOffset,
    InvalidAccessType,
    InvalidExtendedAttrib(u8),
    InvalidFieldUpdateRule,
    ReservedValue,
    ReservedFieldSet,
    ResourceTemplateReservedTag,
    InvalidResourceTemplate,
    /// An opcode (or extended opcode) that the parser does not know.
    UnknownOpcode(u8),
    /// A byte that cannot appear inside a name segment.
    InvalidNameChar(u8),
    /// A name that is empty or shorter than one name segment where a
    /// segment-long name is needed.
    InvalidName,
    /// A package length whose encoded value is smaller than its own size.
    InvalidPkgLength,
    /// The debug-object target prefix followed by a byte other than `0x31`.
    InvalidDebugTarget(u8),
    /// The code parsed, but its declarations do not form a tree of scopes
    /// (see `structured::StructuredAmlError::MalformedScope`).
    MalformedScope,
}

/// The parsed AML code: a list of terms.
#[derive(Debug)]
pub struct AmlCode {
    pub term_list: Vec<AmlTerm>,
}

#[derive(Debug, Clone, Copy)]
pub enum IntegerData {
    ConstZero,
    ConstOne,
    ConstOnes,
    ByteConst(u8),
    WordConst(u16),
    DWordConst(u32),
    QWordConst(u64),
}

/// The numeric value of an integer constant.
pub open spec fn integer_value(i: IntegerData) -> int {
    match i {
        IntegerData::ConstZero => 0,
        IntegerData::ConstOne => 1,
        IntegerData::ConstOnes => 0xFFFF_FFFF_FFFF_FFFF,
        IntegerData::ByteConst(b) => b as int,
        IntegerData::WordConst(w) => w as int,
        IntegerData::DWordConst(d) => d as int,
        IntegerData::QWordConst(q) => q as int,
    }
}

impl IntegerData {
    /// The value as a byte: defined for byte constants, zero, one and ones (all bits of a byte).
    pub fn as_u8(&self) -> (r: Option<u8>)
        ensures
            r == match *self {
                IntegerData::ByteConst(b) => Some(b),
                IntegerData::ConstZero => Some(0u8),
                IntegerData::ConstOne => Some(1u8),
                IntegerData::ConstOnes => Some(0xFFu8),
                _ => None,
            },
    {
        match self {
            IntegerData::ByteConst(byte) => Some(*byte),
            IntegerData::ConstZero => Some(0),
            IntegerData::ConstOne => Some(1),
            IntegerData::ConstOnes => Some(0xFF),
            _ => None,
        }
    }

    /// The value as a word: also defined for the byte-sized constants.
    pub fn as_u16(&self) -> (r: Option<u16>)
        ensures
            r == match *self {
                IntegerData::WordConst(w) => Some(w),
                IntegerData::ConstOnes => Some(0xFFFFu16),
                IntegerData::ByteConst(b) => Some(b as u16),
                IntegerData::ConstZero => Some(0u16),
                IntegerData::ConstOne => Some(1u16),
                _ => None,
            },
    {
        match self {
            IntegerData::WordConst(word) => Some(*word),
            IntegerData::ConstOnes => Some(0xFFFF),
            _ => match self.as_u8() {
                Some(b) => Some(b as u16),
                None => None,
            },
        }
    }

    /// The value as a double word: also defined for the word and byte sized constants.
    pub fn as_u32(&self) -> (r: Option<u32>)
        ensures
            r == match *self {
                IntegerData::DWordConst(d) => Some(d),
                IntegerData::ConstOnes => Some(0xFFFF_FFFFu32),
                IntegerData::WordConst(w) => Some(w as u32),
                IntegerData::ByteConst(b) => Some(b as u32),
                IntegerData::ConstZero => Some(0u32),
                IntegerData::ConstOne => Some(1u32),
                _ => None,
            },
    {
        match self {
            IntegerData::DWordConst(dword) => Some(*dword),
            IntegerData::ConstOnes => Some(0xFFFF_FFFF),
            _ => match self.as_u16() {
                Some(w) => Some(w as u32),
                None => None,
            },
        }
    }

    /// The value as a quad word; every constant has one.
    pub fn as_u64(&self) -> (r: u64)
        ensures
            r == integer_value(*self),
    {
        match self {
            IntegerData::QWordConst(qword) => *qword,
            IntegerData::ConstOnes => 0xFFFF_FFFF_FFFF_FFFF,
            _ => match self.as_u32() {
                Some(d) => d as u64,
                None => 0,
            },
        }
    }
}

/// A data object as written in the AML, which may hold expressions that
/// are only known when the code runs.
#[derive(Debug)]
pub enum UnresolvedDataObject {
    Integer(IntegerData),
    Buffer(Buffer),
    Package(u8, Vec<PackageElement<UnresolvedDataObject>>),
    VarPackage(Box<TermArg>, Vec<PackageElement<UnresolvedDataObject>>),
    String(String),
    EisaId(String),
}

/// An element of a package: a data object of type `D` or a name.
#[derive(Debug)]
pub enum PackageElement<D> {
    DataObject(D),
    Name(String),
}

impl<T> PackageElement<T> {
    pub fn as_data(&self) -> (r: Option<&T>)
        ensures
            r == match self {
                PackageElement::DataObject(d) => Some(d),
                PackageElement::Name(_) => None::<&T>,
            },
    {
        match self {
            PackageElement::DataObject(data) => Some(data),
            _ => None,
        }
    }

    pub fn as_name(&self) -> (r: Option<&str>)
        ensures
            match self {
                PackageElement::DataObject(_) => r.is_none(),
                PackageElement::Name(n) => r.is_some() && r.unwrap()@ == n@,
            },
    {
        match self {
            PackageElement::Name(name) => Some(name.as_str()),
            _ => None,
        }
    }
}

#[derive(Debug)]
pub struct Buffer {
    pub size: Box<TermArg>,
    pub data: Vec<u8>,
}

#[derive(Debug)]
pub enum AmlTerm {
    Scope(ScopeObj),
    Region(RegionObj),
    Field(FieldDef),
    IndexField(IndexFieldDef),
    Device(ScopeObj),
    Processor(ProcessorDeprecated),
    PowerResource(PowerResource),
    Method(MethodObj),
    NameObj(String, UnresolvedDataObject),
    Alias(String, String),
    ToHexString(TermArg, Box<Target>),
    ToBuffer(TermArg, Box<Target>),
    ToDecimalString(TermArg, Box<Target>),
    ToInteger(TermArg, Box<Target>),
    Mid(TermArg, TermArg, TermArg, Box<Target>),
    Add(TermArg, TermArg, Box<Target>),
    Concat(TermArg, TermArg, Box<Target>),
    Subtract(TermArg, TermArg, Box<Target>),
    Multiply(TermArg, TermArg, Box<Target>),
    Divide(TermArg, TermArg, Box<Target>, Box<Target>),
    ShiftLeft(TermArg, TermArg, Box<Target>),
    ShiftRight(TermArg, TermArg, Box<Target>),
    And(TermArg, TermArg, Box<Target>),
    Nand(TermArg, TermArg, Box<Target>),
    Or(TermArg, TermArg, Box<Target>),
    Nor(TermArg, TermArg, Box<Target>),
    Xor(TermArg, TermArg, Box<Target>),
    Not(TermArg, Box<Target>),
    SizeOf(Box<Target>),
    Store(TermArg, Box<Target>),
    RefOf(Box<Target>),
    Increment(Box<Target>),
    Decrement(Box<Target>),
    While(PredicateBlock),
    If(PredicateBlock),
    Else(Vec<AmlTerm>),
    Noop,
    Return(TermArg),
    Break,
    LAnd(TermArg, TermArg),
    LOr(TermArg, TermArg),
    LNot(TermArg),
    LNotEqual(TermArg, TermArg),
    LLessEqual(TermArg, TermArg),
    LGreaterEqual(TermArg, TermArg),
    LEqual(TermArg, TermArg),
    LGreater(TermArg, TermArg),
    LLess(TermArg, TermArg),
    FindSetLeftBit(TermArg, Box<Target>),
    FindSetRightBit(TermArg, Box<Target>),
    DerefOf(TermArg),
    ConcatRes(TermArg, TermArg, Box<Target>),
    Mod(TermArg, TermArg, Box<Target>),
    Notify(Box<Target>, TermArg),
    Index(TermArg, TermArg, Box<Target>),
    Mutex(String, u8),
    Event(String),
    CondRefOf(Box<Target>, Box<Target>),
    CreateFieldOp(TermArg, TermArg, TermArg, String),
    Acquire(Box<Target>, u16),
    Signal(Box<Target>),
    Wait(Box<Target>, TermArg),
    Reset(Box<Target>),
    Release(Box<Target>),
    Stall(TermArg),
    Sleep(TermArg),
    CreateDWordField(TermArg, TermArg, String),
    CreateWordField(TermArg, TermArg, String),
    CreateByteField(TermArg, TermArg, String),
    CreateBitField(TermArg, TermArg, String),
    CreateQWordField(TermArg, TermArg, String),
    MethodCall(String, Vec<TermArg>),
    ObjectType(Box<Target>),
}

#[derive(Debug)]
pub enum TermArg {
    Expression(Box<AmlTerm>),
    DataObject(UnresolvedDataObject),
    Arg(u8),
    Local(u8),
    Name(String),
}

#[derive(Debug)]
pub enum Target {
    /// No target (written as the null name).
    Null,
    Arg(u8),
    Local(u8),
    Name(String),
    Debug,
    DerefOf(TermArg),
    RefOf(Box<Target>),
    Index(TermArg, TermArg, Box<Target>),
}

/// Whether a scope was opened by a `Scope` or by a `Device` term.
#[derive(Debug, Clone, Copy)]
pub enum ScopeType {
    Scope,
    Device,
}

#[derive(Debug)]
pub struct ScopeObj {
    pub name: String,
    pub term_list: Vec<AmlTerm>,
}

#[derive(Debug, Clone, Copy)]
#[allow(non_camel_case_types)]
pub enum RegionSpace {
    SystemMemory,
    SystemIO,
    PCI_Config,
    EmbeddedControl,
    SMBus,
    SystemCMOS,
    PciBarTarget,
    IPMI,
    GeneralPurposeIO,
    GenericSerialBus,
    PCC,
    FFixedHW,
    Other(u8),
}

/// The region space that a space byte names.
pub open spec fn region_space_of(space: u8) -> RegionSpace {
    if space == 0 {
        RegionSpace::SystemMemory
    } else if space == 1 {
        RegionSpace::SystemIO
    } else if space == 2 {
        RegionSpace::PCI_Config
    } else if space == 3 {
        RegionSpace::EmbeddedControl
    } else if space == 4 {
        RegionSpace::SMBus
    } else if space == 5 {
        RegionSpace::SystemCMOS
    } else if space == 6 {
        RegionSpace::PciBarTarget
    } else if space == 7 {
        RegionSpace::IPMI
    } else if space == 8 {
        RegionSpace::GeneralPurposeIO
    } else if space == 9 {
        RegionSpace::GenericSerialBus
    } else if space == 10 {
        RegionSpace::PCC
    } else {
        RegionSpace::Other(space)
    }
}

impl RegionSpace {
    /// Decodes a region space byte.
    pub fn from_u8(space: u8) -> (r: RegionSpace)
        ensures
            r == region_space_of(space),
    {
        match space {
            0 => RegionSpace::SystemMemory,
            1 => RegionSpace::SystemIO,
            2 => RegionSpace::PCI_Config,
            3 => RegionSpace::EmbeddedControl,
            4 => RegionSpace::SMBus,
            5 => RegionSpace::SystemCMOS,
            6 => RegionSpace::PciBarTarget,
            7 => RegionSpace::IPMI,
            8 => RegionSpace::GeneralPurposeIO,
            9 => RegionSpace::GenericSerialBus,
            10 => RegionSpace::PCC,
            _ => RegionSpace::Other(space),
        }
    }
}

#[derive(Debug)]
pub struct RegionObj {
    pub name: String,
    pub region_space: RegionSpace,
    pub region_offset: TermArg,
    pub region_length: TermArg,
}

#[derive(Debug, Clone, Copy)]
pub enum AccessType {
    Any,
    Byte,
    Word,
    DWord,
    QWord,
    Buffer,
}

/// The access type that the low four bits of a field flags byte name, if any.
pub open spec fn access_type_of(value: u8) -> Option<AccessType> {
    let v = value % 16;
    if v == 0 {
        Some(AccessType::Any)
    } else if v == 1 {
        Some(AccessType::Byte)
    } else if v == 2 {
        Some(AccessType::Word)
    } else if v == 3 {
        Some(AccessType::DWord)
    } else if v == 4 {
        Some(AccessType::QWord)
    } else if v == 5 {
        Some(AccessType::Buffer)
    } else {
        None
    }
}

impl AccessType {
    /// Decodes the low four bits of `value`.
    pub fn try_from_u8(value: u8) -> (r: Result<AccessType, AmlParseError>)
        ensures
            match access_type_of(value) {
                Some(t) => r == Ok::<AccessType, AmlParseError>(t),
                None => r matches Err(AmlParseError::InvalidAccessType),
            },
    {
        let v = value & 0b1111;
        proof {
            crate::bits::lemma_u8(value);
        }
        assert(v == value % 16);
        match v {
            0 => Ok(AccessType::Any),
            1 => Ok(AccessType::Byte),
            2 => Ok(AccessType::Word),
            3 => Ok(AccessType::DWord),
            4 => Ok(AccessType::QWord),
            5 => Ok(AccessType::Buffer),
            _ => Err(AmlParseError::InvalidAccessType),
        }
    }
}

#[derive(Debug, Clone, Copy)]
pub enum FieldUpdateRule {
    Preserve,
    WriteAsOnes,
    WriteAsZeros,
}

/// The update rule that the low three bits of `value` name, if any.
pub open spec fn update_rule_of(value: u8) -> Option<FieldUpdateRule> {
    let v = value % 8;
    if v == 0 {
        Some(FieldUpdateRule::Preserve)
    } else if v == 1 {
        Some(FieldUpdateRule::WriteAsOnes)
    } else if v == 2 {
        Some(FieldUpdateRule::WriteAsZeros)
    } else {
        None
    }
}

impl FieldUpdateRule {
    /// Decodes the low three bits of `value`.
    pub fn try_from_u8(value: u8) -> (r: Result<FieldUpdateRule, AmlParseError>)
        ensures
            match update_rule_of(value) {
                Some(u) => r == Ok::<FieldUpdateRule, AmlParseError>(u),
                None => r matches Err(AmlParseError::InvalidFieldUpdateRule),
            },
    {
        let v = value & 0b111;
        proof {
            crate::bits::lemma_u8(value);
        }
        assert(v == value % 8);
        match v {
            0 => Ok(FieldUpdateRule::Preserve),
            1 => Ok(FieldUpdateRule::WriteAsOnes),
            2 => Ok(FieldUpdateRule::WriteAsZeros),
            _ => Err(AmlParseError::InvalidFieldUpdateRule),
        }
    }
}

#[derive(Debug)]
pub struct FieldDef {
    pub name: String,
    pub access_type: AccessType,
    pub need_lock: bool,
    pub update_rule: FieldUpdateRule,
    pub fields: Vec<FieldElement>,
}

#[derive(Debug)]
pub struct IndexFieldDef {
    pub name: String,
    pub index_name: String,
    pub access_type: AccessType,
    pub need_lock: bool,
    pub update_rule: FieldUpdateRule,
    pub fields: Vec<FieldElement>,
}

#[derive(Debug, Clone, Copy)]
pub enum AccessAttrib {
    /// Only the raw value, it has no name.
    ByteValue(u8),
    Bytes(u8),
    RawBytes(u8),
    RawProcessBytes(u8),
    Quick,
    SendRecv,
    Byte,
    Word,
    Block,
    ProcessCall,
    BlockProcessCall,
}

#[derive(Debug)]
pub enum FieldConnection {
    Buffer(Buffer),
    Name(String),
}

#[derive(Debug)]
pub enum FieldElement {
    Offset(usize),
    Named(String, usize),
    Access(AccessType, AccessAttrib),
    Connection(FieldConnection),
}

#[derive(Debug)]
pub struct MethodObj {
    pub name: String,
    pub flags: u8,
    pub term_list: Vec<AmlTerm>,
}

impl MethodObj {
    /// Number of arguments, the low three bits of the flags.
    pub fn arg_count(&self) -> (r: usize)
        ensures
            r == self.flags % 8,
    {
        let fl = self.flags;
        let f = fl & 0b111;
        proof {
            crate::bits::lemma_u8(fl);
        }
        assert(f == fl % 8);
        f as usize
    }

    /// Whether the method is serialized, bit 3 of the flags.
    pub fn is_serialized(&self) -> (r: bool)
        ensures
            r == ((self.flags / 8) % 2 == 1),
    {
        let fl = self.flags;
        proof {
            crate::bits::lemma_u8(fl);
        }
        (fl & 0b1000) != 0
    }

    /// The synchronization level, the high four bits of the flags.
    pub fn sync_level(&self) -> (r: u8)
        ensures
            r == self.flags / 16,
    {
        let fl = self.flags;
        proof {
            crate::bits::lemma_u8(fl);
        }
        fl >> 4
    }
}

#[derive(Debug)]
pub struct PredicateBlock {
    pub predicate: TermArg,
    pub term_list: Vec<AmlTerm>,
}

#[derive(Debug)]
pub struct ProcessorDeprecated {
    pub name: String,
    pub unk1: u8,
    pub unk2: u32,
    pub unk3: u8,
    pub term_list: Vec<AmlTerm>,
}

#[derive(Debug)]
pub struct PowerResource {
    pub name: String,
    pub system_level: u8,
    pub resource_order: u16,
    pub term_list: Vec<AmlTerm>,
}


/// The last name segment (the last four characters) of a name.
pub open spec fn last_segment(name: Seq<char>) -> Seq<char> {
    name.subrange(name.len() - 4, name.len() as int)
}

/// `after` is `before` with the method `name` recorded with `count`
/// arguments: under the last segment of `name` exactly that count, every
/// other method record and every name as before.
pub open spec fn method_added(before: State, after: State, name: Seq<char>, count: usize) -> bool {
    &&& forall|c: usize| after.has_method(last_segment(name), c) <==> c == count
    &&& forall|k: Seq<char>, c: usize| k != last_segment(name) ==> (after.has_method(k, c) == before.has_method(k, c))
    &&& forall|k: Seq<char>| after.has_name(k) == before.has_name(k)
}

/// Looking a method up after adding one: any name with the same last
/// segment (at least four characters long) finds the count just added, and
/// a name with another last segment finds what it found before.
pub proof fn lemma_method_lookup_after_add(before: State, after: State, name: Seq<char>, count: usize, m: Seq<char>)
    requires
        method_added(before, after, name, count),
    ensures
        last_segment(m) == last_segment(name) ==> forall|c: usize| after.has_method(last_segment(m), c) <==> c == count,
        last_segment(m) != last_segment(name) ==> forall|c: usize|
            after.has_method(last_segment(m), c) == before.has_method(last_segment(m), c),
{
}

/// Names and method argument counts that the parsers have seen so far.
///
/// Methods are keyed by their last name segment, since calls may use a
/// relative or an absolute path.
#[derive(Debug)]
pub struct State {
    pub methods: Vec<(String, usize)>,
    pub names: Vec<String>,
}

impl State {
    /// No method segment occurs twice.
    pub open spec fn wf(&self) -> bool {
        forall|i: int, j: int|
            0 <= i < self.methods@.len() && 0 <= j < self.methods@.len() && i != j
                ==> #[trigger] self.methods@[i].0@ != #[trigger] self.methods@[j].0@
    }

    pub open spec fn has_name(&self, n: Seq<char>) -> bool {
        exists|i: int| 0 <= i < self.names@.len() && #[trigger] self.names@[i]@ == n
    }

    pub open spec fn has_method(&self, n: Seq<char>, count: usize) -> bool {
        exists|i: int|
            0 <= i < self.methods@.len() && #[trigger] self.methods@[i].0@ == n && self.methods@[i].1 == count
    }

    pub fn new() -> (r: State)
        ensures
            r.wf(),
            forall|n: Seq<char>| !r.has_name(n),
            forall|n: Seq<char>, c: usize| !r.has_method(n, c),
    {
        State { methods: Vec::new(), names: Vec::new() }
    }

    fn contains_name(&self, name: &str) -> (r: bool)
        ensures
            r == self.has_name(name@),
    {
        let mut i: usize = 0;
        while i < self.names.len()
            invariant
                i <= self.names@.len(),
                forall|j: int| 0 <= j < i ==> self.names@[j]@ != name@,
            decreases self.names@.len() - i,
        {
            if crate::text::str_eq(self.names[i].as_str(), name) {
                return true;
            }
            i = i + 1;
        }
        false
    }

    /// Whether the name, or its last segment, is a known name.
    pub fn find_name(&self, name: &str) -> (r: bool)
        requires
            name@.len() >= 4,
        ensures
            r == (self.has_name(name@) || self.has_name(last_segment(name@))),
    {
        let n = crate::text::char_len(name);
        let short = crate::text::substring(name, n - 4, n);
        self.contains_name(name) || self.contains_name(short.as_str())
    }

    fn method_index(&self, key: &str) -> (r: Option<usize>)
        ensures
            match r {
                Some(i) => i < self.methods@.len() && self.methods@[i as int].0@ == key@,
                None => forall|i: int| 0 <= i < self.methods@.len() ==> #[trigger] self.methods@[i].0@ != key@,
            },
    {
        let mut i: usize = 0;
        while i < self.methods.len()
            invariant
                i <= self.methods@.len(),
                forall|j: int| 0 <= j < i ==> #[trigger] self.methods@[j].0@ != key@,
            decreases self.methods@.len() - i,
        {
            if crate::text::str_eq(self.methods[i].0.as_str(), key) {
                return Some(i);
            }
            i = i + 1;
        }
        None
    }

    /// The argument count of the method whose last segment matches the name's last segment.
    pub fn find_method(&self, name: &str) -> (r: Option<usize>)
        requires
            self.wf(),
            name@.len() >= 4,
        ensures
            match r {
                Some(c) => self.has_method(last_segment(name@), c),
                None => forall|c: usize| !self.has_method(last_segment(name@), c),
            },
    {
        let n = crate::text::char_len(name);
        let key = crate::text::substring(name, n - 4, n);
        match self.method_index(key.as_str()) {
            Some(i) => {
                let c = self.methods[i].1;
                proof {
                    assert(self.methods@[i as int].0@ == last_segment(name@));
                }
                Some(c)
            },
            None => None,
        }
    }

    /// Records a method (by its last segment) and its argument count,
    /// replacing an earlier record of the same segment.
    pub fn add_method(&mut self, name: &str, arg_count: usize)
        requires
            old(self).wf(),
            name@.len() >= 4,
        ensures
            final(self).wf(),
            method_added(*old(self), *final(self), name@, arg_count),
            final(self).has_method(last_segment(name@), arg_count),
            forall|c: usize| c != arg_count ==> !final(self).has_method(last_segment(name@), c),
            forall|k: Seq<char>, c: usize|
                k != last_segment(name@) ==> (final(self).has_method(k, c) == old(self).has_method(k, c)),
            forall|k: Seq<char>| final(self).has_name(k) == old(self).has_name(k),
    {
        let n = crate::text::char_len(name);
        let key = crate::text::substring(name, n - 4, n);
        let ghost seg = last_segment(name@);
        let ghost old_names = self.names@;
        assert(key@ == seg);
        match self.method_index(key.as_str()) {
            Some(i) => {
                let ghost old_methods = self.methods@;
                self.methods.set(i, (key, arg_count));
                proof {
                    assert forall|k: Seq<char>, c: usize| k != seg implies
                        (self.has_method(k, c) == old(self).has_method(k, c)) by {
                        if self.has_method(k, c) {
                            let j = choose|j: int| 0 <= j < self.methods@.len() && #[trigger] self.methods@[j].0@ == k && self.methods@[j].1 == c;
                            assert(j != i);
                            assert(old_methods[j] == self.methods@[j]);
                        }
                        if old(self).has_method(k, c) {
                            let j = choose|j: int| 0 <= j < old_methods.len() && #[trigger] old_methods[j].0@ == k && old_methods[j].1 == c;
                            assert(j != i);
                            assert(old_methods[j] == self.methods@[j]);
                        }
                    }
                    assert(self.methods@[i as int].0@ == seg);
                    assert forall|c: usize| c != arg_count implies !self.has_method(seg, c) by {
                        if self.has_method(seg, c) {
                            let j = choose|j: int| 0 <= j < self.methods@.len() && #[trigger] self.methods@[j].0@ == seg && self.methods@[j].1 == c;
                            assert(j != i);
                            assert(old_methods[j].0@ == seg);
                            assert(old_methods[i as int].0@ == seg);
                        }
                    }
                }
            },
            None => {
                let ghost old_methods = self.methods@;
                self.methods.push((key, arg_count));
                proof {
                    let last = old_methods.len() as int;
                    assert(self.methods@[last].0@ == seg);
                    assert forall|k: Seq<char>, c: usize| k != seg implies
                        (self.has_method(k, c) == old(self).has_method(k, c)) by {
                        if self.has_method(k, c) {
                            let j = choose|j: int| 0 <= j < self.methods@.len() && #[trigger] self.methods@[j].0@ == k && self.methods@[j].1 == c;
                            assert(j != last);
                            assert(old_methods[j] == self.methods@[j]);
                        }
                        if old(self).has_method(k, c) {
                            let j = choose|j: int| 0 <= j < old_methods.len() && #[trigger] old_methods[j].0@ == k && old_methods[j].1 == c;
                            assert(old_methods[j] == self.methods@[j]);
                        }
                    }
                    assert forall|c: usize| c != arg_count implies !self.has_method(seg, c) by {
                        if self.has_method(seg, c) {
                            let j = choose|j: int| 0 <= j < self.methods@.len() && #[trigger] self.methods@[j].0@ == seg && self.methods@[j].1 == c;
                            assert(j != last);
                            assert(old_methods[j].0@ == seg);
                        }
                    }
                    assert forall|a: int, b: int|
                        0 <= a < self.methods@.len() && 0 <= b < self.methods@.len() && a != b
                        implies #[trigger] self.methods@[a].0@ != #[trigger] self.methods@[b].0@ by {
                        if a != last && b != last {
                            assert(old_methods[a] == self.methods@[a]);
                            assert(old_methods[b] == self.methods@[b]);
                        } else if a == last {
                            assert(old_methods[b] == self.methods@[b]);
                        } else {
                            assert(old_methods[a] == self.methods@[a]);
                        }
                    }
                }
            },
        }
        assert(self.names@ =~= old_names);
    }

    /// Records a name.
    pub fn add_name(&mut self, name: String)
        ensures
            final(self).wf() == old(self).wf(),
            forall|k: Seq<char>| final(self).has_name(k) == (old(self).has_name(k) || k == name@),
            forall|k: Seq<char>, c: usize| final(self).has_method(k, c) == old(self).has_method(k, c),
    {
        if self.contains_name(name.as_str()) {
            return;
        }
        let ghost old_names = self.names@;
        let ghost old_methods = self.methods@;
        let ghost n = name@;
        self.names.push(name);
        assert(self.methods@ =~= old_methods);
        proof {
            assert(self.names@[old_names.len() as int]@ == n);
            assert forall|k: Seq<char>| self.has_name(k) == (old(self).has_name(k) || k == n) by {
                if self.has_name(k) {
                    let j = choose|j: int| 0 <= j < self.names@.len() && #[trigger] self.names@[j]@ == k;
                    if j < old_names.len() {
                        assert(old_names[j] == self.names@[j]);
                    }
                }
                if old(self).has_name(k) {
                    let j = choose|j: int| 0 <= j < old_names.len() && #[trigger] old_names[j]@ == k;
                    assert(old_names[j] == self.names@[j]);
                }
            }
        }
    }
}

/// A parser over the window `[pos, end)` of `code`.
pub struct Parser<'a> {
    pub code: &'a [u8],
    pub pos: usize,
    pub end: usize,
}

/// `b` is `a` moved forward (or not at all), on the same window.
pub open spec fn advanced(a: Parser, b: Parser) -> bool {
    &&& b.code@ == a.code@
    &&& b.end == a.end
    &&& a.pos <= b.pos <= b.end
}

/// The value of a package-length encoding whose lead byte is at `pos`:
/// the low bits of the lead byte followed by the little-endian extra bytes.
pub open spec fn pkg_length_value(s: Seq<u8>, pos: int) -> int {
    let lead = s[pos];
    let following = lead / 64;
    if following == 0 {
        (lead % 64) as int
    } else {
        (lead % 16) as int + 16 * crate::bytes::le_at(s, pos + 1, following as int)
    }
}

/// The package whose length encoding is at `p`: where its body starts
/// (after the encoding) and ends (the length counts from `p`), when the
/// encoding is valid and the package fits before `e`.
pub open spec fn pkg_bounds(s: Seq<u8>, p: int, e: int) -> Option<(int, int)> {
    if p >= e {
        None
    } else {
        let lead = s[p];
        let following = (lead / 64) as int;
        let v = pkg_length_value(s, p);
        if (following == 0 || ((lead / 16) % 4 == 0 && p + 1 + following <= e)) && v >= following + 1 && p + v <= e {
            Some((p + 1 + following, p + v))
        } else {
            None
        }
    }
}

impl<'a> Parser<'a> {
    pub open spec fn wf(&self) -> bool {
        self.pos <= self.end <= self.code@.len()
    }

    /// Bytes left in the window.
    pub open spec fn rem(&self) -> int {
        self.end - self.pos
    }

    /// A parser over all of `code`.
    pub fn new(code: &'a [u8]) -> (r: Parser<'a>)
        ensures
            r.wf(),
            r.code@ == code@,
            r.pos == 0,
            r.end == code@.len(),
    {
        Parser { code, pos: 0, end: code.len() }
    }

    pub fn remaining_bytes(&self) -> (r: usize)
        requires
            self.wf(),
        ensures
            r == self.rem(),
    {
        self.end - self.pos
    }

    pub fn get_next_byte(&mut self) -> (r: Result<u8, AmlParseError>)
        requires
            old(self).wf(),
        ensures
            final(self).wf(),
            final(self).code@ == old(self).code@,
            final(self).end == old(self).end,
            old(self).pos < old(self).end ==> r == Ok::<u8, AmlParseError>(old(self).code@[old(self).pos as int])
                && final(self).pos == old(self).pos + 1,
            old(self).pos >= old(self).end ==> (r matches Err(AmlParseError::UnexpectedEndOfCode))
                && final(self).pos == old(self).pos,
    {
        if self.pos >= self.end {
            return Err(AmlParseError::UnexpectedEndOfCode);
        }
        let byte = self.code[self.pos];
        self.pos = self.pos + 1;
        Ok(byte)
    }

    pub fn peek_next_byte(&self) -> (r: Result<u8, AmlParseError>)
        requires
            self.wf(),
        ensures
            self.pos < self.end ==> r == Ok::<u8, AmlParseError>(self.code@[self.pos as int]),
            self.pos >= self.end ==> (r matches Err(AmlParseError::UnexpectedEndOfCode)),
    {
        if self.pos >= self.end {
            return Err(AmlParseError::UnexpectedEndOfCode);
        }
        Ok(self.code[self.pos])
    }

    pub fn forward(&mut self, n: usize) -> (r: Result<(), AmlParseError>)
        requires
            old(self).wf(),
        ensures
            final(self).wf(),
            final(self).code@ == old(self).code@,
            final(self).end == old(self).end,
            old(self).pos + n <= old(self).end ==> r is Ok && final(self).pos == old(self).pos + n,
            old(self).pos + n > old(self).end ==> (r matches Err(AmlParseError::UnexpectedEndOfCode))
                && final(self).pos == old(self).pos,
    {
        if n > self.end - self.pos {
            return Err(AmlParseError::UnexpectedEndOfCode);
        }
        self.pos = self.pos + n;
        Ok(())
    }

    pub fn backward(&mut self, n: usize) -> (r: Result<(), AmlParseError>)
        requires
            old(self).wf(),
            n <= old(self).pos || old(self).pos == 0,
        ensures
            final(self).wf(),
            final(self).code@ == old(self).code@,
            final(self).end == old(self).end,
            old(self).pos == 0 ==> (r matches Err(AmlParseError::CannotMoveBackward)) && final(self).pos == 0,
            old(self).pos != 0 ==> r is Ok && final(self).pos == old(self).pos - n,
    {
        if self.pos == 0 {
            return Err(AmlParseError::CannotMoveBackward);
        }
        self.pos = self.pos - n;
        Ok(())
    }

    /// Reads a package length and returns the number of bytes that follow
    /// the length encoding in the package.
    pub fn get_pkg_length(&mut self) -> (r: Result<usize, AmlParseError>)
        requires
            old(self).wf(),
        ensures
            final(self).wf(),
            advanced(*old(self), *final(self)),
            ({
                let s = old(self).code@;
                let p = old(self).pos as int;
                let e = old(self).end as int;
                let lead = s[p];
                let following = (lead / 64) as int;
                let v = pkg_length_value(s, p);
                &&& p >= e ==> (r matches Err(AmlParseError::UnexpectedEndOfCode))
                &&& p < e && following == 0 && v == 0 ==> (r matches Err(AmlParseError::InvalidPkgLength))
                &&& p < e && following != 0 && (lead / 16) % 4 != 0
                    ==> (r matches Err(AmlParseError::InvalidPkgLengthLead)) && final(self).pos == p + 1
                &&& p < e && following == 0 ==> final(self).pos == p + 1
                &&& p < e && following != 0 && (lead / 16) % 4 == 0 && p + 1 + following > e
                    ==> (r matches Err(AmlParseError::UnexpectedEndOfCode))
                &&& p < e && (following == 0 || ((lead / 16) % 4 == 0 && p + 1 + following <= e))
                    && v < following + 1 ==> (r matches Err(AmlParseError::InvalidPkgLength))
                &&& p < e && (following == 0 || ((lead / 16) % 4 == 0 && p + 1 + following <= e))
                    && v >= following + 1 ==> r == Ok::<usize, AmlParseError>((v - following - 1) as usize)
                        && final(self).pos == p + 1 + following
            }),
    {
        let ghost s = self.code@;
        let ghost p = self.pos as int;
        let lead_byte = self.get_next_byte()?;
        let following_bytes = lead_byte >> 6u8;
        proof {
            crate::bits::lemma_u8(lead_byte);
        }
        assert(following_bytes == lead_byte / 64);
        if following_bytes == 0 {
            let low = lead_byte & 0b0011_1111;
            proof {
                crate::bits::lemma_u8(lead_byte);
            }
            assert(low == lead_byte % 64);
            if low == 0 {
                return Err(AmlParseError::InvalidPkgLength);
            }
            return Ok((low as usize) - 1);
        }
        let mid = (lead_byte >> 4u8) & 0b11;
        proof {
            crate::bits::lemma_u8(lead_byte);
        }
        assert(mid == (lead_byte / 16) % 4);
        if mid != 0 {
            return Err(AmlParseError::InvalidPkgLengthLead);
        }
        let low = lead_byte & 0b0000_1111;
        proof {
            crate::bits::lemma_u8(lead_byte);
        }
        assert(low == lead_byte % 16);
        if (following_bytes as usize) > self.end - self.pos {
            self.pos = self.end;
            return Err(AmlParseError::UnexpectedEndOfCode);
        }
        let mut extra: usize = 0;
        let mut mult: usize = 1;
        let start = self.pos;
        // the extra bytes are read from the last one down so that the value
        // is accumulated most significant first
        let mut k: usize = following_bytes as usize;
        while k > 0
            invariant
                1 <= following_bytes <= 3,
                start == p + 1,
                start + following_bytes <= self.end,
                self.end <= self.code@.len(),
                self.code@ == s,
                self.pos == start,
                k <= following_bytes,
                extra == crate::bytes::le_at(s, start + k, following_bytes - k),
                extra < crate::bytes::pow256(following_bytes - k),
            decreases k,
        {
            k = k - 1;
            let b = self.code[start + k];
            proof {
                crate::bytes::lemma_pow256_bound((following_bytes - k - 1) as nat);
            }
            extra = (b as usize) + 256 * extra;
            proof {
                crate::bytes::lemma_pow256_step((following_bytes - k - 1) as nat);
            }
        }
        proof {
            crate::bytes::lemma_pow256_bound(following_bytes as nat);
        }
        self.pos = start + following_bytes as usize;
        let length = (low as usize) + 16 * extra;
        if length < following_bytes as usize + 1 {
            return Err(AmlParseError::InvalidPkgLength);
        }
        Ok(length - following_bytes as usize - 1)
    }

    /// A parser over the package that starts here (after its length), and
    /// moves this parser past the package.
    pub fn get_inner_parser(&mut self) -> (r: Result<Parser<'a>, AmlParseError>)
        requires
            old(self).wf(),
        ensures
            final(self).wf(),
            advanced(*old(self), *final(self)),
            r matches Ok(inner) ==> {
                &&& inner.wf()
                &&& inner.code@ == old(self).code@
                &&& old(self).pos < inner.pos
                &&& inner.end == final(self).pos
                &&& inner.rem() < old(self).rem()
            },
            match pkg_bounds(old(self).code@, old(self).pos as int, old(self).end as int) {
                Some((a, b)) => r matches Ok(inner) && inner.pos == a && inner.end == b,
                None => r is Err,
            },
    {
        let ghost s = self.code@;
        let ghost p = self.pos as int;
        let ghost e = self.end as int;
        let pkg_length = match self.get_pkg_length() {
            Ok(l) => l,
            Err(err) => {
                return Err(err);
            },
        };
        proof {
            let lead = s[p];
            let following = (lead / 64) as int;
            assert(p < e);
            assert(following == 0 || ((lead / 16) % 4 == 0 && p + 1 + following <= e));
            assert(pkg_length_value(s, p) >= following + 1);
            crate::bytes::lemma_le_at_bound(s, p + 1, following);
            crate::bytes::lemma_pow256_bound(following as nat);
            assert(pkg_length_value(s, p) < 0x1000_0000);
        }
        if pkg_length > self.end - self.pos {
            return Err(AmlParseError::UnexpectedEndOfCode);
        }
        let inner = Parser { code: self.code, pos: self.pos, end: self.pos + pkg_length };
        self.pos = self.pos + pkg_length;
        Ok(inner)
    }

    /// A parser at the same position, over the same window.
    pub fn clone_parser(&self) -> (r: Parser<'a>)
        ensures
            r.code@ == self.code@,
            r.pos == self.pos,
            r.end == self.end,
    {
        Parser { code: self.code, pos: self.pos, end: self.end }
    }

    pub fn check_empty(&self) -> (r: Result<(), AmlParseError>)
        requires
            self.wf(),
        ensures
            self.pos == self.end ==> r is Ok,
            self.pos != self.end ==> r == Err::<(), AmlParseError>(AmlParseError::RemainingBytes((self.end - self.pos) as usize)),
    {
        if self.pos != self.end {
            return Err(AmlParseError::RemainingBytes(self.end - self.pos));
        }
        Ok(())
    }

    pub fn try_parse_local(&self, lead: u8) -> (r: Result<Option<u8>, AmlParseError>)
        ensures
            0x60 <= lead <= 0x67 ==> r == Ok::<Option<u8>, AmlParseError>(Some((lead - 0x60) as u8)),
            !(0x60 <= lead <= 0x67) ==> r == Ok::<Option<u8>, AmlParseError>(None),
    {
        if 0x60 <= lead && lead <= 0x67 {
            Ok(Some(lead - 0x60))
        } else {
            Ok(None)
        }
    }

    pub fn try_parse_arg(&self, lead: u8) -> (r: Result<Option<u8>, AmlParseError>)
        ensures
            0x68 <= lead <= 0x6E ==> r == Ok::<Option<u8>, AmlParseError>(Some((lead - 0x68) as u8)),
            !(0x68 <= lead <= 0x6E) ==> r == Ok::<Option<u8>, AmlParseError>(None),
    {
        if 0x68 <= lead && lead <= 0x6E {
            Ok(Some(lead - 0x68))
        } else {
            Ok(None)
        }
    }
}

} // verus!
