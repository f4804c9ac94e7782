//! ELF executables: the file header and the program headers, decoded from
//! the bytes of the file.

use vstd::prelude::*;
use crate::bytes::{le_at, read_array4, read_array7, read_u16, read_u32, read_u64, read_u8};

verus! {

/// Errors while reading an ELF file.
#[derive(Debug, Clone, Copy, PartialEq, Eq, Structural)]
pub enum ElfLoadError {
    InvalidMagic,
    InvalidElfOrNotSupported,
    UnexpectedEndOfFile,
}

/// Program header flag: executable.
pub const PROG_FLAG_EXE: u32 = 0x1;
/// Program header flag: writable.
pub const PROG_FLAG_WRITE: u32 = 0x2;
/// Program header flag: readable.
pub const PROG_FLAG_READ: u32 = 0x4;
/// The writable bit of a page table entry.
pub const PTE_WRITABLE: u64 = 0x2;

/// The page flags for a segment with the given program header flags: only
/// writable segments get a flag; everything is readable.
pub fn to_virtual_memory_flags(flags: u32) -> (r: u64)
    ensures
        r == (if flags & 0x2 != 0 { 0x2u64 } else { 0u64 }),
{
    let mut vm_flags: u64 = 0;
    if flags & PROG_FLAG_WRITE != 0 {
        vm_flags = vm_flags | PTE_WRITABLE;
        proof {
            crate::bits::lemma_constants();
        }
    }
    vm_flags
}

/// The identification and type fields at the start of an ELF file (24 bytes).
#[derive(Debug, Clone, Copy)]
pub struct ElfHeaderBase {
    pub magic: [u8; 4],
    pub bits: u8,
    pub endianness: u8,
    pub version: u8,
    pub abi: u8,
    pub abi_version: u8,
    pub pad: [u8; 7],
    pub elf_type: u16,
    pub machine: u16,
    pub elf_version: u32,
}

impl ElfHeaderBase {
    /// The structure holds the little-endian fields of `s` at `at`.
    pub open spec fn decoded_from(self, s: Seq<u8>, at: int) -> bool {
        &&& self.magic@ == s.subrange(at + 0, at + 4)
        &&& self.bits == le_at(s, at + 4, 1)
        &&& self.endianness == le_at(s, at + 5, 1)
        &&& self.version == le_at(s, at + 6, 1)
        &&& self.abi == le_at(s, at + 7, 1)
        &&& self.abi_version == le_at(s, at + 8, 1)
        &&& self.pad@ == s.subrange(at + 9, at + 16)
        &&& self.elf_type == le_at(s, at + 16, 2)
        &&& self.machine == le_at(s, at + 18, 2)
        &&& self.elf_version == le_at(s, at + 20, 4)
    }

    /// Decodes the structure from the bytes of `b` at `at`.
    pub fn from_bytes(b: &[u8], at: usize) -> (r: Self)
        requires
            at + 24 <= b@.len(),
        ensures
            r.decoded_from(b@, at as int),
    {
        let _len = b.len();
        ElfHeaderBase {
            magic: read_array4(b, at + 0),
            bits: read_u8(b, at + 4),
            endianness: read_u8(b, at + 5),
            version: read_u8(b, at + 6),
            abi: read_u8(b, at + 7),
            abi_version: read_u8(b, at + 8),
            pad: read_array7(b, at + 9),
            elf_type: read_u16(b, at + 16),
            machine: read_u16(b, at + 18),
            elf_version: read_u32(b, at + 20),
        }
    }
}

/// The rest of a 32-bit ELF header (28 bytes).
#[derive(Debug, Clone, Copy)]
pub struct ElfHeader32 {
    pub entry: u32,
    pub program_header_offset: u32,
    pub section_header_offset: u32,
    pub flags: u32,
    pub header_size: u16,
    pub program_header_entry_size: u16,
    pub program_header_entry_count: u16,
    pub section_header_entry_size: u16,
    pub section_header_entry_count: u16,
    pub section_header_string_table_index: u16,
}

impl ElfHeader32 {
    /// The structure holds the little-endian fields of `s` at `at`.
    pub open spec fn decoded_from(self, s: Seq<u8>, at: int) -> bool {
        &&& self.entry == le_at(s, at + 0, 4)
        &&& self.program_header_offset == le_at(s, at + 4, 4)
        &&& self.section_header_offset == le_at(s, at + 8, 4)
        &&& self.flags == le_at(s, at + 12, 4)
        &&& self.header_size == le_at(s, at + 16, 2)
        &&& self.program_header_entry_size == le_at(s, at + 18, 2)
        &&& self.program_header_entry_count == le_at(s, at + 20, 2)
        &&& self.section_header_entry_size == le_at(s, at + 22, 2)
        &&& self.section_header_entry_count == le_at(s, at + 24, 2)
        &&& self.section_header_string_table_index == le_at(s, at + 26, 2)
    }

    /// Decodes the structure from the bytes of `b` at `at`.
    pub fn from_bytes(b: &[u8], at: usize) -> (r: Self)
        requires
            at + 28 <= b@.len(),
        ensures
            r.decoded_from(b@, at as int),
    {
        let _len = b.len();
        ElfHeader32 {
            entry: read_u32(b, at + 0),
            program_header_offset: read_u32(b, at + 4),
            section_header_offset: read_u32(b, at + 8),
            flags: read_u32(b, at + 12),
            header_size: read_u16(b, at + 16),
            program_header_entry_size: read_u16(b, at + 18),
            program_header_entry_count: read_u16(b, at + 20),
            section_header_entry_size: read_u16(b, at + 22),
            section_header_entry_count: read_u16(b, at + 24),
            section_header_string_table_index: read_u16(b, at + 26),
        }
    }
}

/// The rest of a 64-bit ELF header (40 bytes).
#[derive(Debug, Clone, Copy)]
pub struct ElfHeader64 {
    pub entry: u64,
    pub program_header_offset: u64,
    pub section_header_offset: u64,
    pub flags: u32,
    pub header_size: u16,
    pub program_header_entry_size: u16,
    pub program_header_entry_count: u16,
    pub section_header_entry_size: u16,
    pub section_header_entry_count: u16,
    pub section_header_string_table_index: u16,
}

impl ElfHeader64 {
    /// The structure holds the little-endian fields of `s` at `at`.
    pub open spec fn decoded_from(self, s: Seq<u8>, at: int) -> bool {
        &&& self.entry == le_at(s, at + 0, 8)
        &&& self.program_header_offset == le_at(s, at + 8, 8)
        &&& self.section_header_offset == le_at(s, at + 16, 8)
        &&& self.flags == le_at(s, at + 24, 4)
        &&& self.header_size == le_at(s, at + 28, 2)
        &&& self.program_header_entry_size == le_at(s, at + 30, 2)
        &&& self.program_header_entry_count == le_at(s, at + 32, 2)
        &&& self.section_header_entry_size == le_at(s, at + 34, 2)
        &&& self.section_header_entry_count == le_at(s, at + 36, 2)
        &&& self.section_header_string_table_index == le_at(s, at + 38, 2)
    }

    /// Decodes the structure from the bytes of `b` at `at`.
    pub fn from_bytes(b: &[u8], at: usize) -> (r: Self)
        requires
            at + 40 <= b@.len(),
        ensures
            r.decoded_from(b@, at as int),
    {
        let _len = b.len();
        ElfHeader64 {
            entry: read_u64(b, at + 0),
            program_header_offset: read_u64(b, at + 8),
            section_header_offset: read_u64(b, at + 16),
            flags: read_u32(b, at + 24),
            header_size: read_u16(b, at + 28),
            program_header_entry_size: read_u16(b, at + 30),
            program_header_entry_count: read_u16(b, at + 32),
            section_header_entry_size: read_u16(b, at + 34),
            section_header_entry_count: read_u16(b, at + 36),
            section_header_string_table_index: read_u16(b, at + 38),
        }
    }
}

/// A 32-bit program header (32 bytes).
#[derive(Debug, Clone, Copy)]
pub struct ElfProgram32 {
    pub ty: u32,
    pub offset: u32,
    pub virtual_address: u32,
    pub physical_address: u32,
    pub file_size: u32,
    pub mem_size: u32,
    pub flags: u32,
    pub alignment: u32,
}

impl ElfProgram32 {
    /// The structure holds the little-endian fields of `s` at `at`.
    pub open spec fn decoded_from(self, s: Seq<u8>, at: int) -> bool {
        &&& self.ty == le_at(s, at + 0, 4)
        &&& self.offset == le_at(s, at + 4, 4)
        &&& self.virtual_address == le_at(s, at + 8, 4)
        &&& self.physical_address == le_at(s, at + 12, 4)
        &&& self.file_size == le_at(s, at + 16, 4)
        &&& self.mem_size == le_at(s, at + 20, 4)
        &&& self.flags == le_at(s, at + 24, 4)
        &&& self.alignment == le_at(s, at + 28, 4)
    }

    /// Decodes the structure from the bytes of `b` at `at`.
    pub fn from_bytes(b: &[u8], at: usize) -> (r: Self)
        requires
            at + 32 <= b@.len(),
        ensures
            r.decoded_from(b@, at as int),
    {
        let _len = b.len();
        ElfProgram32 {
            ty: read_u32(b, at + 0),
            offset: read_u32(b, at + 4),
            virtual_address: read_u32(b, at + 8),
            physical_address: read_u32(b, at + 12),
            file_size: read_u32(b, at + 16),
            mem_size: read_u32(b, at + 20),
            flags: read_u32(b, at + 24),
            alignment: read_u32(b, at + 28),
        }
    }
}

/// A 64-bit program header (56 bytes).
#[derive(Debug, Clone, Copy)]
pub struct ElfProgram64 {
    pub ty: u32,
    pub flags: u32,
    pub offset: u64,
    pub virtual_address: u64,
    pub physical_address: u64,
    pub file_size: u64,
    pub mem_size: u64,
    pub alignment: u64,
}

impl ElfProgram64 {
    /// The structure holds the little-endian fields of `s` at `at`.
    pub open spec fn decoded_from(self, s: Seq<u8>, at: int) -> bool {
        &&& self.ty == le_at(s, at + 0, 4)
        &&& self.flags == le_at(s, at + 4, 4)
        &&& self.offset == le_at(s, at + 8, 8)
        &&& self.virtual_address == le_at(s, at + 16, 8)
        &&& self.physical_address == le_at(s, at + 24, 8)
        &&& self.file_size == le_at(s, at + 32, 8)
        &&& self.mem_size == le_at(s, at + 40, 8)
        &&& self.alignment == le_at(s, at + 48, 8)
    }

    /// Decodes the structure from the bytes of `b` at `at`.
    pub fn from_bytes(b: &[u8], at: usize) -> (r: Self)
        requires
            at + 56 <= b@.len(),
        ensures
            r.decoded_from(b@, at as int),
    {
        let _len = b.len();
        ElfProgram64 {
            ty: read_u32(b, at + 0),
            flags: read_u32(b, at + 4),
            offset: read_u64(b, at + 8),
            virtual_address: read_u64(b, at + 16),
            physical_address: read_u64(b, at + 24),
            file_size: read_u64(b, at + 32),
            mem_size: read_u64(b, at + 40),
            alignment: read_u64(b, at + 48),
        }
    }
}

/// The rest of the header, by the class of the file.
#[derive(Debug, Clone, Copy)]
pub enum ElfHeaderUnion {
    Header32(ElfHeader32),
    Header64(ElfHeader64),
}

/// The ELF file header.
#[derive(Debug, Clone, Copy)]
pub struct ElfHeader {
    pub base: ElfHeaderBase,
    pub header: ElfHeaderUnion,
}

/// The magic bytes `\x7fELF`.
pub open spec fn elf_magic() -> Seq<u8> {
    seq![0x7fu8, 0x45, 0x4c, 0x46]
}

impl ElfHeader {
    /// The header decodes the 64 bytes of `s` at `at`: the rest is read as
    /// a 64-bit header when the class says 64 bits, else as a 32-bit one.
    pub open spec fn decoded_from(self, s: Seq<u8>, at: int) -> bool {
        &&& self.base.decoded_from(s, at)
        &&& if self.base.bits == 2 {
            self.header matches ElfHeaderUnion::Header64(h) && h.decoded_from(s, at + 24)
        } else {
            self.header matches ElfHeaderUnion::Header32(h) && h.decoded_from(s, at + 24)
        }
    }

    pub fn from_bytes(b: &[u8], at: usize) -> (r: Self)
        requires
            at + 64 <= b@.len(),
        ensures
            r.decoded_from(b@, at as int),
    {
        let _len = b.len();
        let base = ElfHeaderBase::from_bytes(b, at);
        let header = if base.bits == 2 {
            ElfHeaderUnion::Header64(ElfHeader64::from_bytes(b, at + 24))
        } else {
            ElfHeaderUnion::Header32(ElfHeader32::from_bytes(b, at + 24))
        };
        ElfHeader { base, header }
    }

    /// A little-endian System V executable or shared object for x86-64,
    /// of either class, version 1.
    pub open spec fn spec_is_valid_and_supported(self) -> bool {
        &&& self.base.bits == 1 || self.base.bits == 2
        &&& self.base.endianness == 1
        &&& self.base.version == 1
        &&& self.base.abi == 0
        &&& self.base.abi_version == 0
        &&& self.base.elf_type == 2 || self.base.elf_type == 3
        &&& self.base.machine == 62
        &&& self.base.elf_version == 1
    }

    /// Whether the header is supported, read off its bytes: class 32 or 64
    /// bits, little-endian, version 1, the System V ABI (0) at version 0, the
    /// type of an executable (2) or of a shared object or position-independent
    /// executable (3), the x86-64 machine (62) and ELF version 1.
    pub open spec fn bytes_supported(s: Seq<u8>, at: int) -> bool {
        &&& s[at + 4] == 1 || s[at + 4] == 2
        &&& s[at + 5] == 1
        &&& s[at + 6] == 1
        &&& s[at + 7] == 0
        &&& s[at + 8] == 0
        &&& (s[at + 16] == 2 || s[at + 16] == 3) && s[at + 17] == 0
        &&& s[at + 18] == 62 && s[at + 19] == 0
        &&& s[at + 20] == 1 && s[at + 21] == 0 && s[at + 22] == 0 && s[at + 23] == 0
    }

    /// A header decoded from bytes is valid and supported exactly when its
    /// bytes say so: executables and shared objects alike, of either class.
    pub proof fn lemma_supported_by_bytes(self, s: Seq<u8>, at: int)
        requires
            self.decoded_from(s, at),
            0 <= at,
            at + 64 <= s.len(),
        ensures
            self.spec_is_valid_and_supported() <==> Self::bytes_supported(s, at),
    {
        reveal_with_fuel(le_at, 5);
        assert(le_at(s, at + 16, 2) == s[at + 16] + 256 * s[at + 17]);
        assert(le_at(s, at + 18, 2) == s[at + 18] + 256 * s[at + 19]);
        assert(le_at(s, at + 20, 4) == s[at + 20] + 256 * (s[at + 21] + 256 * (s[at + 22] + 256 * s[at + 23])));
    }

    pub fn is_valid_and_supported(&self) -> (r: bool)
        ensures
            r == self.spec_is_valid_and_supported(),
    {
        !((self.base.bits != 1 && self.base.bits != 2) || self.base.endianness != 1 || self.base.version != 1
            || self.base.abi != 0 || self.base.abi_version != 0 || (self.base.elf_type != 2
            && self.base.elf_type != 3) || self.base.machine != 62 || self.base.elf_version != 1)
    }

    pub fn is_elf64(&self) -> (r: bool)
        ensures
            r == (self.base.bits == 2),
    {
        self.base.bits == 2
    }

    pub fn is_little_endian(&self) -> (r: bool)
        ensures
            r == (self.base.endianness == 1),
    {
        self.base.endianness == 1
    }

    pub open spec fn spec_entry(self) -> u64 {
        match self.header {
            ElfHeaderUnion::Header64(h) => h.entry,
            ElfHeaderUnion::Header32(h) => h.entry as u64,
        }
    }

    pub fn entry(&self) -> (r: u64)
        ensures
            r == self.spec_entry(),
    {
        match &self.header {
            ElfHeaderUnion::Header64(h) => h.entry,
            ElfHeaderUnion::Header32(h) => h.entry as u64,
        }
    }

    pub open spec fn spec_program_header_offset(self) -> u64 {
        match self.header {
            ElfHeaderUnion::Header64(h) => h.program_header_offset,
            ElfHeaderUnion::Header32(h) => h.program_header_offset as u64,
        }
    }

    pub fn program_header_offset(&self) -> (r: u64)
        ensures
            r == self.spec_program_header_offset(),
    {
        match &self.header {
            ElfHeaderUnion::Header64(h) => h.program_header_offset,
            ElfHeaderUnion::Header32(h) => h.program_header_offset as u64,
        }
    }

    pub open spec fn spec_program_header_entry_size(self) -> u64 {
        match self.header {
            ElfHeaderUnion::Header64(h) => h.program_header_entry_size as u64,
            ElfHeaderUnion::Header32(h) => h.program_header_entry_size as u64,
        }
    }

    pub fn program_header_entry_size(&self) -> (r: u64)
        ensures
            r == self.spec_program_header_entry_size(),
    {
        match &self.header {
            ElfHeaderUnion::Header64(h) => h.program_header_entry_size as u64,
            ElfHeaderUnion::Header32(h) => h.program_header_entry_size as u64,
        }
    }

    pub open spec fn spec_program_header_entry_count(self) -> u64 {
        match self.header {
            ElfHeaderUnion::Header64(h) => h.program_header_entry_count as u64,
            ElfHeaderUnion::Header32(h) => h.program_header_entry_count as u64,
        }
    }

    pub fn program_header_entry_count(&self) -> (r: u64)
        ensures
            r == self.spec_program_header_entry_count(),
    {
        match &self.header {
            ElfHeaderUnion::Header64(h) => h.program_header_entry_count as u64,
            ElfHeaderUnion::Header32(h) => h.program_header_entry_count as u64,
        }
    }

    pub fn section_header_offset(&self) -> (r: u64)
        ensures
            r == match self.header {
                ElfHeaderUnion::Header64(h) => h.section_header_offset,
                ElfHeaderUnion::Header32(h) => h.section_header_offset as u64,
            },
    {
        match &self.header {
            ElfHeaderUnion::Header64(h) => h.section_header_offset,
            ElfHeaderUnion::Header32(h) => h.section_header_offset as u64,
        }
    }

    pub fn size_of_header(&self) -> (r: u64)
        ensures
            r == match self.header {
                ElfHeaderUnion::Header64(h) => h.header_size as u64,
                ElfHeaderUnion::Header32(h) => h.header_size as u64,
            },
    {
        match &self.header {
            ElfHeaderUnion::Header64(h) => h.header_size as u64,
            ElfHeaderUnion::Header32(h) => h.header_size as u64,
        }
    }
}

/// The type of a segment.
#[derive(Debug, Clone, Copy, PartialEq, Eq, Structural)]
pub enum ElfProgramType {
    Null,
    Load,
    Dynamic,
    Interpreter,
    Note,
    Shlib,
    ProgramHeader,
    ThreadLocalStorage,
    OsSpecific(u32),
    ProcessorSpecific(u32),
}

pub open spec fn program_type_of(ty: u32) -> ElfProgramType {
    if ty == 0 {
        ElfProgramType::Null
    } else if ty == 1 {
        ElfProgramType::Load
    } else if ty == 2 {
        ElfProgramType::Dynamic
    } else if ty == 3 {
        ElfProgramType::Interpreter
    } else if ty == 4 {
        ElfProgramType::Note
    } else if ty == 5 {
        ElfProgramType::Shlib
    } else if ty == 6 {
        ElfProgramType::ProgramHeader
    } else if ty == 7 {
        ElfProgramType::ThreadLocalStorage
    } else if 0x6000_0000 <= ty <= 0x6fff_ffff {
        ElfProgramType::OsSpecific(ty)
    } else if 0x7000_0000 <= ty <= 0x7fff_ffff {
        ElfProgramType::ProcessorSpecific(ty)
    } else {
        ElfProgramType::Null
    }
}

impl ElfProgramType {
    pub fn from_u32(ty: u32) -> (r: Self)
        ensures
            r == program_type_of(ty),
    {
        match ty {
            0 => ElfProgramType::Null,
            1 => ElfProgramType::Load,
            2 => ElfProgramType::Dynamic,
            3 => ElfProgramType::Interpreter,
            4 => ElfProgramType::Note,
            5 => ElfProgramType::Shlib,
            6 => ElfProgramType::ProgramHeader,
            7 => ElfProgramType::ThreadLocalStorage,
            0x6000_0000..=0x6fff_ffff => ElfProgramType::OsSpecific(ty),
            0x7000_0000..=0x7fff_ffff => ElfProgramType::ProcessorSpecific(ty),
            _ => ElfProgramType::Null,
        }
    }
}

/// A program header of either class.
#[derive(Debug, Clone, Copy)]
pub enum ElfProgram {
    Program32(ElfProgram32),
    Program64(ElfProgram64),
}

/// The size of a program header of the class.
pub open spec fn program_header_size(is_elf64: bool) -> int {
    if is_elf64 {
        56
    } else {
        32
    }
}

impl ElfProgram {
    /// The program header decodes the bytes of `s` at `at` in the class.
    pub open spec fn decoded_from(self, s: Seq<u8>, at: int, is_elf64: bool) -> bool {
        if is_elf64 {
            self matches ElfProgram::Program64(p) && p.decoded_from(s, at)
        } else {
            self matches ElfProgram::Program32(p) && p.decoded_from(s, at)
        }
    }

    /// Reads the program header at `at`: the entry size must be the size of
    /// a header of the class, and the header must lie inside the bytes.
    pub fn parse(b: &[u8], at: u64, is_elf64: bool, entry_size: u64) -> (r: Result<Self, ElfLoadError>)
        ensures
            entry_size != program_header_size(is_elf64) ==> r == Err::<Self, ElfLoadError>(
                ElfLoadError::InvalidElfOrNotSupported,
            ),
            entry_size == program_header_size(is_elf64) && at + entry_size > b@.len() ==> r == Err::<
                Self,
                ElfLoadError,
            >(ElfLoadError::UnexpectedEndOfFile),
            entry_size == program_header_size(is_elf64) && at + entry_size <= b@.len() ==> (r matches Ok(p)
                && p.decoded_from(b@, at as int, is_elf64)),
    {
        let size: u64 = if is_elf64 {
            56
        } else {
            32
        };
        if entry_size != size {
            return Err(ElfLoadError::InvalidElfOrNotSupported);
        }
        let n = b.len();
        if at > n as u64 || (n as u64) - at < size {
            return Err(ElfLoadError::UnexpectedEndOfFile);
        }
        if is_elf64 {
            Ok(ElfProgram::Program64(ElfProgram64::from_bytes(b, at as usize)))
        } else {
            Ok(ElfProgram::Program32(ElfProgram32::from_bytes(b, at as usize)))
        }
    }

    pub open spec fn spec_ty(self) -> u32 {
        match self {
            ElfProgram::Program32(p) => p.ty,
            ElfProgram::Program64(p) => p.ty,
        }
    }

    pub fn ty(&self) -> (r: ElfProgramType)
        ensures
            r == program_type_of(self.spec_ty()),
    {
        let ty = match self {
            ElfProgram::Program32(p) => p.ty,
            ElfProgram::Program64(p) => p.ty,
        };
        ElfProgramType::from_u32(ty)
    }

    pub fn offset(&self) -> (r: u64)
        ensures
            r == match self {
                ElfProgram::Program32(p) => p.offset as u64,
                ElfProgram::Program64(p) => p.offset,
            },
    {
        match self {
            ElfProgram::Program32(p) => p.offset as u64,
            ElfProgram::Program64(p) => p.offset,
        }
    }

    pub fn virtual_address(&self) -> (r: u64)
        ensures
            r == match self {
                ElfProgram::Program32(p) => p.virtual_address as u64,
                ElfProgram::Program64(p) => p.virtual_address,
            },
    {
        match self {
            ElfProgram::Program32(p) => p.virtual_address as u64,
            ElfProgram::Program64(p) => p.virtual_address,
        }
    }

    pub fn physical_address(&self) -> (r: u64)
        ensures
            r == match self {
                ElfProgram::Program32(p) => p.physical_address as u64,
                ElfProgram::Program64(p) => p.physical_address,
            },
    {
        match self {
            ElfProgram::Program32(p) => p.physical_address as u64,
            ElfProgram::Program64(p) => p.physical_address,
        }
    }

    pub fn file_size(&self) -> (r: u64)
        ensures
            r == match self {
                ElfProgram::Program32(p) => p.file_size as u64,
                ElfProgram::Program64(p) => p.file_size,
            },
    {
        match self {
            ElfProgram::Program32(p) => p.file_size as u64,
            ElfProgram::Program64(p) => p.file_size,
        }
    }

    pub fn mem_size(&self) -> (r: u64)
        ensures
            r == match self {
                ElfProgram::Program32(p) => p.mem_size as u64,
                ElfProgram::Program64(p) => p.mem_size,
            },
    {
        match self {
            ElfProgram::Program32(p) => p.mem_size as u64,
            ElfProgram::Program64(p) => p.mem_size,
        }
    }

    pub fn flags(&self) -> (r: u32)
        ensures
            r == match self {
                ElfProgram::Program32(p) => p.flags,
                ElfProgram::Program64(p) => p.flags,
            },
    {
        match self {
            ElfProgram::Program32(p) => p.flags,
            ElfProgram::Program64(p) => p.flags,
        }
    }

    pub fn alignment(&self) -> (r: u64)
        ensures
            r == match self {
                ElfProgram::Program32(p) => p.alignment as u64,
                ElfProgram::Program64(p) => p.alignment,
            },
    {
        match self {
            ElfProgram::Program32(p) => p.alignment as u64,
            ElfProgram::Program64(p) => p.alignment,
        }
    }
}

/// A loaded ELF file: its header and program headers.
#[derive(Debug)]
pub struct Elf {
    pub header: ElfHeader,
    pub prg_headers: Vec<ElfProgram>,
}

impl Elf {
    /// Reads an ELF file from its bytes: the 64 bytes of the header must
    /// be there, with the magic bytes and a supported kind; then the
    /// program headers are read one after the other from their offset.
    pub fn load(image: &[u8]) -> (r: Result<Self, ElfLoadError>)
        ensures
            match r {
                Ok(elf) => {
                    &&& image@.len() >= 64
                    &&& elf.header.decoded_from(image@, 0)
                    &&& elf.header.base.magic@ == elf_magic()
                    &&& elf.header.spec_is_valid_and_supported()
                    &&& elf.prg_headers@.len() == elf.header.spec_program_header_entry_count()
                    &&& forall|k: int|
                        0 <= k < elf.prg_headers@.len() ==> (#[trigger] elf.prg_headers@[k]).decoded_from(
                            image@,
                            elf.header.spec_program_header_offset() + k * elf.header.spec_program_header_entry_size(),
                            elf.header.base.bits == 2,
                        )
                },
                Err(e) => {
                    &&& image@.len() < 64 ==> e == ElfLoadError::UnexpectedEndOfFile
                    &&& image@.len() >= 64 && image@.subrange(0, 4) != elf_magic() ==> e == ElfLoadError::InvalidMagic
                },
            },
            image@.len() >= 64 && image@.subrange(0, 4) == elf_magic() ==> forall|h: ElfHeader|
                #[trigger] h.decoded_from(image@, 0) ==> match r {
                    Ok(_) => h.spec_is_valid_and_supported() && (h.spec_program_header_entry_count() == 0 || (
                    h.spec_program_header_entry_size() == program_header_size(h.base.bits == 2)
                        && h.spec_program_header_offset() + h.spec_program_header_entry_count()
                        * h.spec_program_header_entry_size() <= image@.len())),
                    Err(e) => if !h.spec_is_valid_and_supported() {
                        e == ElfLoadError::InvalidElfOrNotSupported
                    } else if h.spec_program_header_entry_size() != program_header_size(h.base.bits == 2) {
                        e == ElfLoadError::InvalidElfOrNotSupported && h.spec_program_header_entry_count() > 0
                    } else {
                        e == ElfLoadError::UnexpectedEndOfFile && h.spec_program_header_entry_count() > 0
                            && h.spec_program_header_offset() + h.spec_program_header_entry_count()
                            * h.spec_program_header_entry_size() > image@.len()
                    },
                },
    {
        let n = image.len();
        if n < 64 {
            return Err(ElfLoadError::UnexpectedEndOfFile);
        }
        let header = ElfHeader::from_bytes(image, 0);
        let magic = header.base.magic;
        if !(magic[0] == 0x7f && magic[1] == 0x45 && magic[2] == 0x4c && magic[3] == 0x46) {
            proof {
                if image@.subrange(0, 4) == elf_magic() {
                    assert(magic@ =~= image@.subrange(0, 4));
                    assert(magic@[0] == 0x7f && magic@[1] == 0x45 && magic@[2] == 0x4c && magic@[3] == 0x46);
                }
            }
            return Err(ElfLoadError::InvalidMagic);
        }
        assert(magic@ =~= elf_magic());
        proof {
            lemma_header_unique(header, image@);
        }
        if !header.is_valid_and_supported() {
            return Err(ElfLoadError::InvalidElfOrNotSupported);
        }
        let offset = header.program_header_offset();
        let count = header.program_header_entry_count();
        let entry_size = header.program_header_entry_size();
        let is_elf64 = header.is_elf64();
        let mut program_headers: Vec<ElfProgram> = Vec::new();
        let mut k: u64 = 0;
        let mut at: u64 = offset;
        while k < count
            invariant
                k <= count,
                count == header.spec_program_header_entry_count(),
                entry_size == header.spec_program_header_entry_size(),
                offset == header.spec_program_header_offset(),
                is_elf64 == (header.base.bits == 2),
                count <= 0xffff,
                entry_size <= 0xffff,
                at == offset + k * entry_size,
                k > 0 ==> entry_size == program_header_size(is_elf64) && offset + k * entry_size <= image@.len(),
                n == image@.len(),
                image@.len() >= 64,
                image@.subrange(0, 4) == elf_magic(),
                header.decoded_from(image@, 0),
                header.spec_is_valid_and_supported(),
                forall|g: ElfHeader| #[trigger] g.decoded_from(image@, 0) ==> g.base.bits == header.base.bits
                    && g.spec_is_valid_and_supported() == header.spec_is_valid_and_supported()
                    && g.spec_program_header_entry_count() == header.spec_program_header_entry_count()
                    && g.spec_program_header_entry_size() == header.spec_program_header_entry_size()
                    && g.spec_program_header_offset() == header.spec_program_header_offset(),
                program_headers@.len() == k,
                forall|j: int|
                    0 <= j < k ==> #[trigger] program_headers@[j].decoded_from(image@, offset + j * entry_size, is_elf64),
            decreases count - k,
        {
            let p = ElfProgram::parse(image, at, is_elf64, entry_size);
            match p {
                Ok(p) => {
                    program_headers.push(p);
                },
                Err(e) => {
                    proof {
                        if entry_size == program_header_size(is_elf64) {
                            assert(at + entry_size > image@.len());
                            assert(count * entry_size >= (k + 1) * entry_size) by (nonlinear_arith)
                                requires
                                    k + 1 <= count,
                                    entry_size >= 0,
                            ;
                            assert((k + 1) * entry_size == k * entry_size + entry_size) by (nonlinear_arith);
                            assert(offset + count * entry_size > image@.len());
                        } else {
                            assert(e == ElfLoadError::InvalidElfOrNotSupported);
                        }
                    }
                    return Err(e);
                },
            }
            proof {
                assert(offset + (k + 1) * entry_size == offset + k * entry_size + entry_size) by (nonlinear_arith);
            }
            k = k + 1;
            at = at + entry_size;
        }
        Ok(Elf { header, prg_headers: program_headers })
    }

    pub fn entry_point(&self) -> (r: u64)
        ensures
            r == self.header.spec_entry(),
    {
        self.header.entry()
    }

    pub fn program_headers(&self) -> (r: &[ElfProgram])
        ensures
            r@ == self.prg_headers@,
    {
        self.prg_headers.as_slice()
    }
}

/// Only one header decodes given bytes.
proof fn lemma_header_unique(h: ElfHeader, s: Seq<u8>)
    requires
        h.decoded_from(s, 0),
    ensures
        forall|g: ElfHeader| #[trigger] g.decoded_from(s, 0) ==> g.base.bits == h.base.bits
            && g.spec_is_valid_and_supported() == h.spec_is_valid_and_supported()
            && g.spec_program_header_entry_count() == h.spec_program_header_entry_count()
            && g.spec_program_header_entry_size() == h.spec_program_header_entry_size()
            && g.spec_program_header_offset() == h.spec_program_header_offset(),
{
}

} // verus!
