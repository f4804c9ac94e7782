//! Decoding of resource templates: buffers that describe the I/O ports,
//! memory ranges, interrupts and DMA channels of a device.

use vstd::prelude::*;
use super::{AccessType, AmlParseError, Buffer, RegionSpace, region_space_of, access_type_of};
use crate::bytes::{byte_sum, le_at, le2, le4, sum_bytes};

verus! {

/// A reader over the window `[pos, end)` of a resource buffer.
pub struct Parser<'a> {
    pub buffer: &'a [u8],
    pub pos: usize,
    pub end: usize,
}

/// `b` is `a` moved forward (or not at all), on the same window.
pub open spec fn moved_on(a: Parser, b: Parser) -> bool {
    &&& b.buffer@ == a.buffer@
    &&& b.end == a.end
    &&& a.pos <= b.pos <= b.end
}

impl<'a> Parser<'a> {
    pub open spec fn wf(&self) -> bool {
        self.pos <= self.end <= self.buffer@.len()
    }

    /// A reader over the first `len` bytes of `buffer`.
    pub fn new(buffer: &'a [u8], len: usize) -> (r: Parser<'a>)
        requires
            len <= buffer@.len(),
        ensures
            r.wf(),
            r.buffer@ == buffer@,
            r.pos == 0,
            r.end == len,
    {
        Parser { buffer, pos: 0, end: len }
    }

    pub fn get_next_byte(&mut self) -> (r: Result<u8, AmlParseError>)
        requires
            old(self).wf(),
        ensures
            final(self).wf(),
            moved_on(*old(self), *final(self)),
            old(self).pos < old(self).end ==> r == Ok::<u8, AmlParseError>(old(self).buffer@[old(self).pos as int])
                && final(self).pos == old(self).pos + 1,
            old(self).pos >= old(self).end ==> (r matches Err(AmlParseError::UnexpectedEndOfCode)),
    {
        if self.pos >= self.end {
            return Err(AmlParseError::UnexpectedEndOfCode);
        }
        let byte = self.buffer[self.pos];
        self.pos = self.pos + 1;
        Ok(byte)
    }

    pub fn get_next_u16(&mut self) -> (r: Result<u16, AmlParseError>)
        requires
            old(self).wf(),
        ensures
            final(self).wf(),
            moved_on(*old(self), *final(self)),
            old(self).pos + 2 <= old(self).end ==> (r matches Ok(v) && v == le_at(old(self).buffer@, old(self).pos as int, 2)
                && final(self).pos == old(self).pos + 2),
            old(self).pos + 2 > old(self).end ==> (r matches Err(AmlParseError::UnexpectedEndOfCode)),
    {
        let low = self.get_next_byte()?;
        let high = self.get_next_byte()?;
        let v = crate::bytes::u16_from_le(low, high);
        proof {
            reveal_with_fuel(le_at, 3);
        }
        Ok(v)
    }

    pub fn get_next_u32(&mut self) -> (r: Result<u32, AmlParseError>)
        requires
            old(self).wf(),
        ensures
            final(self).wf(),
            moved_on(*old(self), *final(self)),
            old(self).pos + 4 <= old(self).end ==> (r matches Ok(v) && v == le_at(old(self).buffer@, old(self).pos as int, 4)
                && final(self).pos == old(self).pos + 4),
            old(self).pos + 4 > old(self).end ==> (r matches Err(AmlParseError::UnexpectedEndOfCode)),
    {
        let b0 = self.get_next_byte()?;
        let b1 = self.get_next_byte()?;
        let b2 = self.get_next_byte()?;
        let b3 = self.get_next_byte()?;
        let v = crate::bytes::u32_from_le(b0, b1, b2, b3);
        proof {
            reveal_with_fuel(le_at, 5);
        }
        Ok(v)
    }

    pub fn get_next_u64(&mut self) -> (r: Result<u64, AmlParseError>)
        requires
            old(self).wf(),
        ensures
            final(self).wf(),
            moved_on(*old(self), *final(self)),
            old(self).pos + 8 <= old(self).end ==> (r matches Ok(v) && v == le_at(old(self).buffer@, old(self).pos as int, 8)
                && final(self).pos == old(self).pos + 8),
            old(self).pos + 8 > old(self).end ==> (r matches Err(AmlParseError::UnexpectedEndOfCode)),
    {
        let ghost s = self.buffer@;
        let ghost p = self.pos as int;
        let b0 = self.get_next_byte()?;
        let b1 = self.get_next_byte()?;
        let b2 = self.get_next_byte()?;
        let b3 = self.get_next_byte()?;
        let b4 = self.get_next_byte()?;
        let b5 = self.get_next_byte()?;
        let b6 = self.get_next_byte()?;
        let b7 = self.get_next_byte()?;
        let arr = [b0, b1, b2, b3, b4, b5, b6, b7];
        let v = crate::bytes::u64_from_le(arr);
        proof {
            reveal_with_fuel(le_at, 9);
            assert(arr@[0] == s[p]);
        }
        Ok(v)
    }

    pub fn get_next_address_data<W: AddressWidth>(&mut self) -> (r: Result<W, AmlParseError>)
        requires
            old(self).wf(),
        ensures
            final(self).wf(),
            moved_on(*old(self), *final(self)),
            old(self).pos + W::spec_width() <= old(self).end ==> (r matches Ok(v)
                && v.value() == le_at(old(self).buffer@, old(self).pos as int, W::spec_width() as int)
                && final(self).pos == old(self).pos + W::spec_width()),
            old(self).pos + W::spec_width() > old(self).end ==> (r matches Err(AmlParseError::UnexpectedEndOfCode)),
    {
        W::from_parser(self)
    }

    /// A reader over the next `len` bytes, which this reader then skips.
    pub fn get_inner(&mut self, len: usize) -> (r: Result<Parser<'a>, AmlParseError>)
        requires
            old(self).wf(),
        ensures
            final(self).wf(),
            moved_on(*old(self), *final(self)),
            old(self).pos + len <= old(self).end ==> (r matches Ok(inner)
                && inner.buffer@ == old(self).buffer@ && inner.pos == old(self).pos
                && inner.end == old(self).pos + len && final(self).pos == old(self).pos + len),
            old(self).pos + len > old(self).end ==> (r matches Err(AmlParseError::UnexpectedEndOfCode))
                && final(self).pos == old(self).pos,
    {
        if len > self.end - self.pos {
            return Err(AmlParseError::UnexpectedEndOfCode);
        }
        let inner = Parser { buffer: self.buffer, pos: self.pos, end: self.pos + len };
        self.pos = self.pos + len;
        Ok(inner)
    }

    /// Moves to the end of the window. The data returned is what lies
    /// after the end of the window, which is always nothing.
    pub fn get_remaining_data(&mut self) -> (r: Result<Vec<u8>, AmlParseError>)
        requires
            old(self).wf(),
        ensures
            final(self).wf(),
            moved_on(*old(self), *final(self)),
            old(self).pos < old(self).end ==> (r matches Ok(v) && v@.len() == 0 && final(self).pos == final(self).end),
            old(self).pos >= old(self).end ==> (r matches Err(AmlParseError::UnexpectedEndOfCode)),
    {
        if self.pos >= self.end {
            return Err(AmlParseError::UnexpectedEndOfCode);
        }
        self.pos = self.end;
        Ok(Vec::new())
    }

    pub fn is_done(&self) -> (r: bool)
        ensures
            r == (self.pos >= self.end),
    {
        self.pos >= self.end
    }
}

/// The integer types that addresses in an address space descriptor use.
pub trait AddressWidth: Sized {
    /// Number of bytes of the integer.
    spec fn spec_width() -> usize;

    /// The numeric value.
    spec fn value(&self) -> int;

    fn width() -> (r: u8)
        ensures
            r == Self::spec_width();

    /// Reads a little-endian integer of this width.
    fn from_parser(parser: &mut Parser) -> (r: Result<Self, AmlParseError>)
        requires
            old(parser).wf(),
        ensures
            final(parser).wf(),
            moved_on(*old(parser), *final(parser)),
            old(parser).pos + Self::spec_width() <= old(parser).end ==> (r matches Ok(v)
                && v.value() == le_at(old(parser).buffer@, old(parser).pos as int, Self::spec_width() as int)
                && final(parser).pos == old(parser).pos + Self::spec_width()),
            old(parser).pos + Self::spec_width() > old(parser).end ==> (r matches Err(AmlParseError::UnexpectedEndOfCode));
}

impl AddressWidth for u16 {
    open spec fn spec_width() -> usize {
        2
    }

    open spec fn value(&self) -> int {
        *self as int
    }

    fn width() -> (r: u8) {
        2
    }

    fn from_parser(parser: &mut Parser) -> (r: Result<u16, AmlParseError>) {
        parser.get_next_u16()
    }
}

impl AddressWidth for u32 {
    open spec fn spec_width() -> usize {
        4
    }

    open spec fn value(&self) -> int {
        *self as int
    }

    fn width() -> (r: u8) {
        4
    }

    fn from_parser(parser: &mut Parser) -> (r: Result<u32, AmlParseError>) {
        parser.get_next_u32()
    }
}

impl AddressWidth for u64 {
    open spec fn spec_width() -> usize {
        8
    }

    open spec fn value(&self) -> int {
        *self as int
    }

    fn width() -> (r: u8) {
        8
    }

    fn from_parser(parser: &mut Parser) -> (r: Result<u64, AmlParseError>) {
        parser.get_next_u64()
    }
}

#[derive(Debug, Clone, Copy)]
pub enum DmaSpeedType {
    Compatibility,
    TypeA,
    TypeB,
    TypeF,
}

#[derive(Debug, Clone, Copy)]
pub enum DmaTrasferType {
    Transfer8,
    Transfer16,
    Transfer8_16,
}

#[derive(Debug, Clone, Copy)]
pub enum DmaTransferWidth {
    Width8Bit,
    Width16Bit,
    Width32Bit,
    Width64Bit,
    Width128Bit,
    Width256Bit,
}

#[derive(Debug, Clone, Copy)]
pub enum SpaceMemoryType {
    NonCacheable,
    Cacheable,
    WriteCombining,
    Prefetchable,
}

#[derive(Debug, Clone, Copy)]
pub enum SpaceMemoryRangeType {
    AddressRangeMemory,
    AddressRangeReserved,
    AddressRangeACPI,
    AddressRangeNVS,
}

#[derive(Debug, Clone, Copy)]
pub enum SpaceIoRangeType {
    NonISAOnlyRanges,
    ISAOnlyRanges,
    EntireRange,
}

#[derive(Debug, Clone, Copy)]
pub enum AddressSpaceType {
    Memory { is_read_write: bool, ty: SpaceMemoryType, range_ty: SpaceMemoryRangeType, is_type_translation: bool },
    Io { is_type_translation: bool, range_ty: SpaceIoRangeType, is_sparse_translation: bool },
    BusNumber,
    VendorDefined { value: u8, flags: u8 },
}

/// The resource type of an address space descriptor of `width` bytes,
/// with its type byte `value` and type-specific flags `flags`; `None`
/// for reserved combinations.
pub open spec fn address_space_type_of(width: int, value: u8, flags: u8) -> Option<AddressSpaceType> {
    if value == 0 {
        let ty = if (flags / 2) % 4 == 0 {
            SpaceMemoryType::NonCacheable
        } else if (flags / 2) % 4 == 1 {
            SpaceMemoryType::Cacheable
        } else if (flags / 2) % 4 == 2 {
            SpaceMemoryType::WriteCombining
        } else {
            SpaceMemoryType::Prefetchable
        };
        let range_ty = if (flags / 8) % 4 == 0 {
            SpaceMemoryRangeType::AddressRangeMemory
        } else if (flags / 8) % 4 == 1 {
            SpaceMemoryRangeType::AddressRangeReserved
        } else if (flags / 8) % 4 == 2 {
            SpaceMemoryRangeType::AddressRangeACPI
        } else {
            SpaceMemoryRangeType::AddressRangeNVS
        };
        Some(AddressSpaceType::Memory {
            is_read_write: flags % 2 == 1,
            ty,
            range_ty,
            is_type_translation: (flags / 32) % 2 == 1,
        })
    } else if value == 1 {
        if flags % 4 == 0 {
            None
        } else {
            let range_ty = if flags % 4 == 1 {
                SpaceIoRangeType::NonISAOnlyRanges
            } else if flags % 4 == 2 {
                SpaceIoRangeType::ISAOnlyRanges
            } else {
                SpaceIoRangeType::EntireRange
            };
            Some(AddressSpaceType::Io {
                is_type_translation: (flags / 16) % 2 == 1,
                range_ty,
                is_sparse_translation: (flags / 32) % 2 == 1,
            })
        }
    } else if width == 2 && value == 2 {
        Some(AddressSpaceType::BusNumber)
    } else if value >= 192 {
        Some(AddressSpaceType::VendorDefined { value, flags })
    } else {
        None
    }
}

/// Bit `k` of a byte.
pub fn bit_of(v: u8, k: u8) -> (r: bool)
    requires
        k < 8,
    ensures
        r == ((v as int / crate::bytes::pow2(k as int)) % 2 == 1),
{
    let b = (v >> k) & 1;
    proof {
        crate::bytes::lemma_shift_right_u8(v, k);
    }
    proof {
        crate::bits::lemma_u8(v >> k);
    }
    assert(b == (v >> k) % 2);
    b == 1
}

impl AddressSpaceType {
    pub fn parse<W: AddressWidth>(value: u8, flags: u8) -> (r: Result<AddressSpaceType, AmlParseError>)
        ensures
            match address_space_type_of(W::spec_width() as int, value, flags) {
                Some(t) => r == Ok::<AddressSpaceType, AmlParseError>(t),
                None => r matches Err(AmlParseError::ReservedValue),
            },
    {
        let width = W::width();
        if value == 0 {
            let is_read_write = bit_of(flags, 0);
            let t2 = (flags >> 1u8) & 0b11;
            proof {
                crate::bits::lemma_u8(flags);
            }
            assert(t2 == (flags / 2) % 4);
            let ty = if t2 == 0 {
                SpaceMemoryType::NonCacheable
            } else if t2 == 1 {
                SpaceMemoryType::Cacheable
            } else if t2 == 2 {
                SpaceMemoryType::WriteCombining
            } else {
                SpaceMemoryType::Prefetchable
            };
            let t3 = (flags >> 3u8) & 0b11;
            proof {
                crate::bits::lemma_u8(flags);
            }
            assert(t3 == (flags / 8) % 4);
            let range_ty = if t3 == 0 {
                SpaceMemoryRangeType::AddressRangeMemory
            } else if t3 == 1 {
                SpaceMemoryRangeType::AddressRangeReserved
            } else if t3 == 2 {
                SpaceMemoryRangeType::AddressRangeACPI
            } else {
                SpaceMemoryRangeType::AddressRangeNVS
            };
            let is_type_translation = bit_of(flags, 5);
            proof {
                reveal_with_fuel(crate::bytes::pow2, 6);
            }
            return Ok(AddressSpaceType::Memory { is_read_write, ty, range_ty, is_type_translation });
        }
        if value == 1 {
            let low = flags & 0b11;
            proof {
                crate::bits::lemma_u8(flags);
            }
            assert(low == flags % 4);
            let range_ty = if low == 0 {
                return Err(AmlParseError::ReservedValue);
            } else if low == 1 {
                SpaceIoRangeType::NonISAOnlyRanges
            } else if low == 2 {
                SpaceIoRangeType::ISAOnlyRanges
            } else {
                SpaceIoRangeType::EntireRange
            };
            let is_type_translation = bit_of(flags, 4);
            let is_sparse_translation = bit_of(flags, 5);
            proof {
                reveal_with_fuel(crate::bytes::pow2, 6);
            }
            return Ok(AddressSpaceType::Io { is_type_translation, range_ty, is_sparse_translation });
        }
        if width == 2 && value == 2 {
            return Ok(AddressSpaceType::BusNumber);
        }
        if value >= 192 {
            return Ok(AddressSpaceType::VendorDefined { value, flags });
        }
        Err(AmlParseError::ReservedValue)
    }
}


/// Bit `k` of a byte.
pub open spec fn bit(v: u8, k: int) -> bool {
    (v as int / crate::bytes::pow2(k)) % 2 == 1
}

#[derive(Debug, Clone)]
pub enum ResourceSourceOrTypeSpecificAttrs {
    ResourceSource(ResourceSource),
    TypeSpecificAttrs(u64),
}

#[derive(Debug, Clone)]
pub struct AddressSpace<W: AddressWidth> {
    pub ty: AddressSpaceType,
    pub is_consumer: bool,
    pub is_max_fixed: bool,
    pub is_min_fixed: bool,
    pub is_subtract_decode: bool,
    pub granularity: W,
    pub min: W,
    pub max: W,
    pub translation_offset: W,
    pub len: W,
    pub extra: ResourceSourceOrTypeSpecificAttrs,
}

/// The five numbers of an address space descriptor (granularity, minimum,
/// maximum, translation offset, length) are the little-endian integers of
/// width `w` at `at`.
pub open spec fn address_numbers_at<W: AddressWidth>(s: Seq<u8>, at: int, a: AddressSpace<W>) -> bool {
    let w = W::spec_width() as int;
    &&& a.granularity.value() == le_at(s, at, w)
    &&& a.min.value() == le_at(s, at + w, w)
    &&& a.max.value() == le_at(s, at + 2 * w, w)
    &&& a.translation_offset.value() == le_at(s, at + 3 * w, w)
    &&& a.len.value() == le_at(s, at + 4 * w, w)
}

/// The type and general flags of an address space descriptor are those of
/// the three bytes at `at`.
pub open spec fn address_flags_at<W: AddressWidth>(s: Seq<u8>, at: int, a: AddressSpace<W>) -> bool {
    let flags = s[at + 1];
    &&& address_space_type_of(W::spec_width() as int, s[at], s[at + 2]) == Some(a.ty)
    &&& a.is_consumer == bit(flags, 0)
    &&& a.is_subtract_decode == bit(flags, 1)
    &&& a.is_min_fixed == bit(flags, 2)
    &&& a.is_max_fixed == bit(flags, 3)
}

impl<W: AddressWidth> AddressSpace<W> {
    fn parse_address_ranges_nums(parser: &mut Parser) -> (r: Result<(W, W, W, W, W), AmlParseError>)
        requires
            old(parser).wf(),
        ensures
            final(parser).wf(),
            moved_on(*old(parser), *final(parser)),
            ({
                let s = old(parser).buffer@;
                let p = old(parser).pos as int;
                let w = W::spec_width() as int;
                &&& p + 5 * w <= old(parser).end ==> (r matches Ok((g, mn, mx, t, l))
                    && g.value() == le_at(s, p, w) && mn.value() == le_at(s, p + w, w)
                    && mx.value() == le_at(s, p + 2 * w, w) && t.value() == le_at(s, p + 3 * w, w)
                    && l.value() == le_at(s, p + 4 * w, w) && final(parser).pos == p + 5 * w)
                &&& p + 5 * w > old(parser).end ==> (r matches Err(AmlParseError::UnexpectedEndOfCode))
            }),
    {
        let granularity = parser.get_next_address_data::<W>()?;
        let min = parser.get_next_address_data::<W>()?;
        let max = parser.get_next_address_data::<W>()?;
        let translation_offset = parser.get_next_address_data::<W>()?;
        let len = parser.get_next_address_data::<W>()?;
        Ok((granularity, min, max, translation_offset, len))
    }

    fn parse_start_flags(parser: &mut Parser) -> (r: Result<(AddressSpaceType, bool, bool, bool, bool), AmlParseError>)
        requires
            old(parser).wf(),
        ensures
            final(parser).wf(),
            moved_on(*old(parser), *final(parser)),
            ({
                let s = old(parser).buffer@;
                let p = old(parser).pos as int;
                &&& p + 3 <= old(parser).end && address_space_type_of(W::spec_width() as int, s[p], s[p + 2]) is Some
                    ==> (r matches Ok((ty, consumer, max_fixed, min_fixed, sub))
                        && Some(ty) == address_space_type_of(W::spec_width() as int, s[p], s[p + 2])
                        && consumer == bit(s[p + 1], 0) && sub == bit(s[p + 1], 1)
                        && min_fixed == bit(s[p + 1], 2) && max_fixed == bit(s[p + 1], 3)
                        && final(parser).pos == p + 3)
                &&& p + 3 <= old(parser).end && address_space_type_of(W::spec_width() as int, s[p], s[p + 2]) is None
                    ==> (r matches Err(AmlParseError::ReservedValue))
                &&& p + 3 > old(parser).end ==> (r matches Err(AmlParseError::UnexpectedEndOfCode))
            }),
    {
        let ty_byte = parser.get_next_byte()?;
        let flags = parser.get_next_byte()?;
        let ty_flags = parser.get_next_byte()?;
        let ty = AddressSpaceType::parse::<W>(ty_byte, ty_flags)?;
        let is_max_fixed = bit_of(flags, 3);
        let is_min_fixed = bit_of(flags, 2);
        let is_subtract_decode = bit_of(flags, 1);
        let is_consumer = bit_of(flags, 0);
        Ok((ty, is_consumer, is_max_fixed, is_min_fixed, is_subtract_decode))
    }

    /// A word, double word or quad word address space descriptor.
    pub fn parse(parser: &mut Parser) -> (r: Result<AddressSpace<W>, AmlParseError>)
        requires
            old(parser).wf(),
        ensures
            final(parser).wf(),
            moved_on(*old(parser), *final(parser)),
            ({
                let s = old(parser).buffer@;
                let p = old(parser).pos as int;
                let e = old(parser).end as int;
                let w = W::spec_width() as int;
                &&& r is Ok <==> (p + 3 + 5 * w <= e && address_space_type_of(w, s[p], s[p + 2]) is Some)
                &&& r matches Ok(a) ==> {
                    &&& address_flags_at(s, p, a)
                    &&& address_numbers_at(s, p + 3, a)
                    &&& a.extra matches ResourceSourceOrTypeSpecificAttrs::ResourceSource(src)
                    &&& (p + 3 + 5 * w < e) == (src.index == Some(s[p + 3 + 5 * w]))
                    &&& (p + 3 + 5 * w == e) == (src.index is None)
                    &&& (p + 3 + 5 * w + 1 < e) == (src.source is Some)
                    &&& final(parser).pos == (if p + 3 + 5 * w + 1 < e { e } else if p + 3 + 5 * w < e { p + 4 + 5 * w } else { e })
                }
            }),
    {
        let (ty, is_consumer, is_max_fixed, is_min_fixed, is_subtract_decode) = Self::parse_start_flags(parser)?;
        let (granularity, min, max, translation_offset, len) = Self::parse_address_ranges_nums(parser)?;
        let resource_source = ResourceSource::parse(parser)?;
        Ok(AddressSpace {
            ty,
            is_consumer,
            is_max_fixed,
            is_min_fixed,
            is_subtract_decode,
            granularity,
            min,
            max,
            translation_offset,
            len,
            extra: ResourceSourceOrTypeSpecificAttrs::ResourceSource(resource_source),
        })
    }

    /// An extended (quad word, revision one) address space descriptor.
    pub fn parse_extended(parser: &mut Parser) -> (r: Result<AddressSpace<W>, AmlParseError>)
        requires
            old(parser).wf(),
            W::spec_width() == 8,
        ensures
            final(parser).wf(),
            moved_on(*old(parser), *final(parser)),
            ({
                let s = old(parser).buffer@;
                let p = old(parser).pos as int;
                let e = old(parser).end as int;
                &&& r is Ok <==> (p + 53 <= e && address_space_type_of(8, s[p], s[p + 2]) is Some
                    && s[p + 3] == 1 && s[p + 4] == 0)
                &&& r matches Ok(a) ==> {
                    &&& address_flags_at(s, p, a)
                    &&& address_numbers_at(s, p + 5, a)
                    &&& a.extra matches ResourceSourceOrTypeSpecificAttrs::TypeSpecificAttrs(v)
                    &&& v == le_at(s, p + 45, 8)
                    &&& final(parser).pos == p + 53
                }
            }),
    {
        let ghost s = parser.buffer@;
        let ghost p = parser.pos as int;
        let (ty, is_consumer, is_max_fixed, is_min_fixed, is_subtract_decode) = Self::parse_start_flags(parser)?;
        let revision = parser.get_next_byte()?;
        if revision != 1 {
            // only revision one of the descriptor is known
            return Err(AmlParseError::InvalidResourceTemplate);
        }
        let reserved = parser.get_next_byte()?;
        if reserved != 0 {
            return Err(AmlParseError::ReservedValue);
        }
        let (granularity, min, max, translation_offset, len) = Self::parse_address_ranges_nums(parser)?;
        let type_specific_attribute = parser.get_next_u64()?;
        Ok(AddressSpace {
            ty,
            is_consumer,
            is_max_fixed,
            is_min_fixed,
            is_subtract_decode,
            granularity,
            min,
            max,
            translation_offset,
            len,
            extra: ResourceSourceOrTypeSpecificAttrs::TypeSpecificAttrs(type_specific_attribute),
        })
    }
}

#[derive(Debug, Clone)]
pub struct ResourceSource {
    pub index: Option<u8>,
    pub source: Option<Vec<u8>>,
}

impl ResourceSource {
    pub fn empty() -> (r: ResourceSource)
        ensures
            r.index is None,
            r.source is None,
    {
        ResourceSource { index: None, source: None }
    }

    /// The optional source index byte and source name at the end of a descriptor.
    pub fn parse(parser: &mut Parser) -> (r: Result<ResourceSource, AmlParseError>)
        requires
            old(parser).wf(),
        ensures
            final(parser).wf(),
            moved_on(*old(parser), *final(parser)),
            ({
                let s = old(parser).buffer@;
                let p = old(parser).pos as int;
                let e = old(parser).end as int;
                r matches Ok(src) && {
                    &&& (p < e) == (src.index == Some(s[p]))
                    &&& (p >= e) == (src.index is None)
                    &&& (p + 1 < e) == (src.source matches Some(v) && v@.len() == 0)
                    &&& (p + 1 >= e) == (src.source is None)
                    &&& final(parser).pos == (if p + 1 < e { e } else if p < e { p + 1 } else { p })
                }
            }),
    {
        let index = if !parser.is_done() {
            Some(parser.get_next_byte()?)
        } else {
            None
        };
        let source = if !parser.is_done() {
            Some(parser.get_remaining_data()?)
        } else {
            None
        };
        Ok(ResourceSource { index, source })
    }
}


#[derive(Debug, Clone)]
pub enum ResourceMacro {
    Irq { wake_capable: bool, is_shared: bool, active_low: bool, edge_triggered: bool, irqs_mask: u16 },
    Dma { speed_ty: DmaSpeedType, is_bus_master: bool, transfer_type: DmaTrasferType, channels_mask: u8 },
    StartDependentFunctions { compatibility_priority: u8, performance_priority: u8 },
    EndDependentFunctions,
    Io { is_16_bit_decode: bool, min_addr: u16, max_addr: u16, alignment: u8, len: u8 },
    FixedIo { base: u16, len: u8 },
    FixedDma { dma_req: u16, channel: u16, transfer_width: DmaTransferWidth },
    VendorShort { data: [u8; 6], len: u8 },
    VendorLarge { data: Vec<u8> },
    Memory24 { is_read_write: bool, min_addr: u32, max_addr: u32, alignment: u16, len: u16 },
    Memory32Fixed { is_read_write: bool, base_addr: u32, len: u32 },
    Memory32 { is_read_write: bool, min_addr: u32, max_addr: u32, alignment: u32, len: u32 },
    Interrupt {
        is_consumer: bool,
        edge_triggered: bool,
        active_low: bool,
        is_shared: bool,
        wake_capable: bool,
        interrupts: Vec<u32>,
        resource_source: ResourceSource,
    },
    Register { address_space: RegionSpace, bit_width: u8, offset: u8, address: u64, access_size: AccessType },
    AddressSpaceWord(AddressSpace<u16>),
    AddressSpaceDWord(AddressSpace<u32>),
    AddressSpaceQWord(AddressSpace<u64>),
    AddressSpaceExtended(AddressSpace<u64>),
}

/// The small-resource tags that this decoder knows.
pub open spec fn known_small_tag(first: u8) -> bool {
    first == 0x22 || first == 0x23 || first == 0x2A || first == 0x30 || first == 0x31 || first == 0x38
        || first == 0x47 || first == 0x4B || first == 0x55 || (0x71 <= first <= 0x77)
}

impl ResourceMacro {
    /// A small resource descriptor with tag byte `first` (already read);
    /// `None` when the tag is not one of a known small descriptor.
    pub fn try_parse_small_resource(parser: &mut Parser, first: u8) -> (r: Result<Option<ResourceMacro>, AmlParseError>)
        requires
            old(parser).wf(),
        ensures
            final(parser).wf(),
            moved_on(*old(parser), *final(parser)),
            !known_small_tag(first) && first != 0x79 ==> r == Ok::<Option<ResourceMacro>, AmlParseError>(None)
                && final(parser).pos == old(parser).pos,
            first == 0x38 ==> final(parser).pos == old(parser).pos,
            first == 0x79 ==> (r matches Err(AmlParseError::ResourceTemplateReservedTag)),
            r matches Ok(None) ==> !known_small_tag(first),
            small_decoded(first, old(parser).buffer@, old(parser).pos as int, old(parser).end as int, r, final(parser).pos as int),
    {
        let ghost s = parser.buffer@;
        let ghost p = parser.pos as int;
        if first == 0x22 || first == 0x23 {
            let contain_info = first == 0x23;
            let irqs_mask = parser.get_next_u16()?;
            let mut wake_capable = false;
            let mut is_shared = false;
            let mut active_low = false;
            let mut edge_triggered = true;
            if contain_info {
                let flags = parser.get_next_byte()?;
                edge_triggered = bit_of(flags, 0);
                active_low = bit_of(flags, 3);
                is_shared = bit_of(flags, 4);
                wake_capable = bit_of(flags, 5);
                let high = flags >> 6u8;
                proof {
                    crate::bits::lemma_u8(flags);
                }
                assert(high == flags / 64);
                if high != 0 {
                    return Err(AmlParseError::ReservedFieldSet);
                }
                proof {
                    reveal_with_fuel(crate::bytes::pow2, 6);
                }
            }
            return Ok(Some(ResourceMacro::Irq { wake_capable, is_shared, active_low, edge_triggered, irqs_mask }));
        }
        if first == 0x2A {
            let channels_mask = parser.get_next_byte()?;
            let flags = parser.get_next_byte()?;
            let top = flags >> 7u8;
            proof {
                crate::bits::lemma_u8(flags);
            }
            assert(top == flags / 128);
            if top != 0 {
                return Err(AmlParseError::ReservedFieldSet);
            }
            let low = flags & 0b11;
            proof {
                crate::bits::lemma_u8(flags);
            }
            assert(low == flags % 4);
            let transfer_type = if low == 0 {
                DmaTrasferType::Transfer8
            } else if low == 1 {
                DmaTrasferType::Transfer8_16
            } else if low == 2 {
                DmaTrasferType::Transfer16
            } else {
                return Err(AmlParseError::ReservedFieldSet);
            };
            let is_bus_master = bit_of(flags, 2);
            let sp = (flags >> 5u8) & 0b11;
            assert((flags >> 5u8) & 3u8 == (flags / 32) % 4) by (bit_vector);
            let speed_ty = if sp == 0 {
                DmaSpeedType::Compatibility
            } else if sp == 1 {
                DmaSpeedType::TypeA
            } else if sp == 2 {
                DmaSpeedType::TypeB
            } else {
                DmaSpeedType::TypeF
            };
            proof {
                reveal_with_fuel(crate::bytes::pow2, 3);
            }
            return Ok(Some(ResourceMacro::Dma { speed_ty, is_bus_master, transfer_type, channels_mask }));
        }
        if first == 0x30 || first == 0x31 {
            let contain_priority_byte = first == 0x31;
            let mut compatibility_priority: u8 = 1;
            let mut performance_priority: u8 = 1;
            if contain_priority_byte {
                let flags = parser.get_next_byte()?;
                compatibility_priority = flags & 0b11;
                performance_priority = (flags >> 2u8) & 0b11;
                proof {
                    crate::bits::lemma_u8(flags);
                }
                assert(compatibility_priority == flags % 4);
                proof {
                    crate::bits::lemma_u8(flags);
                }
                assert(performance_priority == (flags / 4) % 4);
                let high = flags >> 4u8;
                proof {
                    crate::bits::lemma_u8(flags);
                }
                assert(high == flags / 16);
                if high != 0 {
                    return Err(AmlParseError::ReservedFieldSet);
                }
            }
            return Ok(Some(ResourceMacro::StartDependentFunctions { compatibility_priority, performance_priority }));
        }
        if first == 0x38 {
            return Ok(Some(ResourceMacro::EndDependentFunctions));
        }
        if first == 0x47 {
            let flags = parser.get_next_byte()?;
            let min_addr = parser.get_next_u16()?;
            let max_addr = parser.get_next_u16()?;
            let alignment = parser.get_next_byte()?;
            let len = parser.get_next_byte()?;
            let is_16_bit_decode = bit_of(flags, 0);
            proof {
                reveal_with_fuel(crate::bytes::pow2, 1);
            }
            return Ok(Some(ResourceMacro::Io { is_16_bit_decode, min_addr, max_addr, alignment, len }));
        }
        if first == 0x4B {
            let raw = parser.get_next_u16()?;
            let base = raw & 0x3FF;
            proof {
                crate::bits::lemma_u16(raw);
            }
            assert(base == raw % 1024);
            let len = parser.get_next_byte()?;
            return Ok(Some(ResourceMacro::FixedIo { base, len }));
        }
        if first == 0x55 {
            let dma_req = parser.get_next_u16()?;
            let channel = parser.get_next_u16()?;
            let w = parser.get_next_byte()?;
            let transfer_width = if w == 0 {
                DmaTransferWidth::Width8Bit
            } else if w == 1 {
                DmaTransferWidth::Width16Bit
            } else if w == 2 {
                DmaTransferWidth::Width32Bit
            } else if w == 3 {
                DmaTransferWidth::Width64Bit
            } else if w == 4 {
                DmaTransferWidth::Width128Bit
            } else if w == 5 {
                DmaTransferWidth::Width256Bit
            } else {
                return Err(AmlParseError::ReservedFieldSet);
            };
            return Ok(Some(ResourceMacro::FixedDma { dma_req, channel, transfer_width }));
        }
        if 0x71 <= first && first <= 0x77 {
            let low = first & 0b111;
            proof {
                crate::bits::lemma_u8(first);
            }
            assert(low == first % 8);
            let len = low - 1;
            let mut data: [u8; 6] = [0; 6];
            let mut i: u8 = 0;
            while i < len
                invariant
                    parser.wf(),
                    moved_on(*old(parser), *parser),
                    old(parser).buffer@ == s,
                    old(parser).pos == p,
                    len <= 6,
                    0x71 <= first <= 0x77,
                    len == first % 8 - 1,
                    i <= len,
                    parser.pos == p + i,
                    forall|j: int| 0 <= j < 6 ==> data@[j] == if j < i { s[p + j] } else { 0u8 },
                decreases len - i,
            {
                let b = parser.get_next_byte()?;
                data.set(i as usize, b);
                i = i + 1;
            }
            return Ok(Some(ResourceMacro::VendorShort { data, len }));
        }
        if first == 0x79 {
            return Err(AmlParseError::ResourceTemplateReservedTag);
        }
        Ok(None)
    }

    /// A large resource descriptor with tag byte `first` (already read);
    /// `None` when `first` is not a large tag, or a large tag not decoded here.
    pub fn try_parse_large_resource(parser: &mut Parser, first: u8) -> (r: Result<Option<ResourceMacro>, AmlParseError>)
        requires
            old(parser).wf(),
        ensures
            final(parser).wf(),
            moved_on(*old(parser), *final(parser)),
            first < 0x80 ==> r == Ok::<Option<ResourceMacro>, AmlParseError>(None) && final(parser).pos == old(parser).pos,
            large_decoded(first, old(parser).buffer@, old(parser).pos as int, old(parser).end as int, r, final(parser).pos as int),
    {
        let ghost s = parser.buffer@;
        let ghost p = parser.pos as int;
        let top = first & 0x80;
        proof {
            crate::bits::lemma_u8(first);
        }
        assert((top == 0x80) == (first >= 0x80));
        if top != 0x80 {
            return Ok(None);
        }
        proof {
            crate::bytes::lemma_le_at_bound(s, p, 2);
        }
        let data_len = parser.get_next_u16()?;
        let mut inner = parser.get_inner(data_len as usize)?;
        let kind = first & 0x7F;
        proof {
            crate::bits::lemma_u8(first);
        }
        assert(kind == first % 128);
        let result = if kind == 0x00 || kind == 0x03 || kind >= 0x13 {
            return Err(AmlParseError::ResourceTemplateReservedTag);
        } else if kind == 0x01 {
            if data_len != 9 {
                return Err(AmlParseError::InvalidResourceTemplate);
            }
            let flags = inner.get_next_byte()?;
            let min_addr = inner.get_next_u16()?;
            let max_addr = inner.get_next_u16()?;
            let alignment = inner.get_next_u16()?;
            let len = inner.get_next_u16()?;
            let is_read_write = bit_of(flags, 0);
            proof {
                reveal_with_fuel(crate::bytes::pow2, 1);
            }
            Some(ResourceMacro::Memory24 {
                is_read_write,
                min_addr: (min_addr as u32) * 256,
                max_addr: (max_addr as u32) * 256,
                alignment,
                len,
            })
        } else if kind == 0x02 {
            if data_len != 12 {
                return Err(AmlParseError::InvalidResourceTemplate);
            }
            let space = inner.get_next_byte()?;
            let mut address_space = RegionSpace::from_u8(space);
            if let RegionSpace::Other(other) = address_space {
                if other == 0x7F {
                    address_space = RegionSpace::FFixedHW;
                } else {
                    return Err(AmlParseError::ReservedFieldSet);
                }
            }
            let bit_width = inner.get_next_byte()?;
            let offset = inner.get_next_byte()?;
            let size_byte = inner.get_next_byte()?;
            let access_size = AccessType::try_from_u8(size_byte)?;
            let address = inner.get_next_u64()?;
            if let AccessType::Buffer = access_size {
                return Err(AmlParseError::ReservedFieldSet);
            }
            Some(ResourceMacro::Register { address_space, bit_width, offset, address, access_size })
        } else if kind == 0x04 {
            let data = inner.get_remaining_data()?;
            Some(ResourceMacro::VendorLarge { data })
        } else if kind == 0x05 {
            if data_len != 17 {
                return Err(AmlParseError::InvalidResourceTemplate);
            }
            let flags = inner.get_next_byte()?;
            let min_addr = inner.get_next_u32()?;
            let max_addr = inner.get_next_u32()?;
            let alignment = inner.get_next_u32()?;
            let len = inner.get_next_u32()?;
            let is_read_write = bit_of(flags, 0);
            proof {
                reveal_with_fuel(crate::bytes::pow2, 1);
            }
            Some(ResourceMacro::Memory32 { is_read_write, min_addr, max_addr, alignment, len })
        } else if kind == 0x06 {
            if data_len != 9 {
                return Err(AmlParseError::InvalidResourceTemplate);
            }
            let flags = inner.get_next_byte()?;
            let base_addr = inner.get_next_u32()?;
            let len = inner.get_next_u32()?;
            let is_read_write = bit_of(flags, 0);
            proof {
                reveal_with_fuel(crate::bytes::pow2, 1);
            }
            Some(ResourceMacro::Memory32Fixed { is_read_write, base_addr, len })
        } else if kind == 0x07 {
            if data_len < 23 {
                return Err(AmlParseError::InvalidResourceTemplate);
            }
            Some(ResourceMacro::AddressSpaceDWord(AddressSpace::<u32>::parse(&mut inner)?))
        } else if kind == 0x08 {
            if data_len < 13 {
                return Err(AmlParseError::InvalidResourceTemplate);
            }
            Some(ResourceMacro::AddressSpaceWord(AddressSpace::<u16>::parse(&mut inner)?))
        } else if kind == 0x09 {
            if data_len < 6 {
                return Err(AmlParseError::InvalidResourceTemplate);
            }
            let flags = inner.get_next_byte()?;
            let is_consumer = bit_of(flags, 0);
            let edge_triggered = bit_of(flags, 1);
            let active_low = bit_of(flags, 2);
            let is_shared = bit_of(flags, 3);
            let wake_capable = bit_of(flags, 4);
            let table_len = inner.get_next_byte()?;
            let mut interrupts: Vec<u32> = Vec::new();
            let mut i: u8 = 0;
            while i < table_len
                invariant
                    inner.wf(),
                    parser.wf(),
                    moved_on(*old(parser), *parser),
                    kind == 0x09,
                    kind == first % 128,
                    first >= 0x80,
                    i <= table_len,
                    interrupts@.len() == i,
                    inner.buffer@ == s,
                    inner.end == p + 2 + data_len,
                    table_len == s[p + 3],
                    inner.pos == p + 4 + 4 * i,
                    s == old(parser).buffer@,
                    p == old(parser).pos,
                    data_len == le_at(s, p, 2),
                    p + 2 + data_len <= old(parser).end,
                    forall|k: int| 0 <= k < i ==> #[trigger] interrupts@[k] == le_at(s, p + 4 + 4 * k, 4),
                decreases table_len - i,
            {
                interrupts.push(inner.get_next_u32()?);
                i = i + 1;
            }
            let resource_source = ResourceSource::parse(&mut inner)?;
            Some(ResourceMacro::Interrupt { is_consumer, edge_triggered, active_low, is_shared, wake_capable, interrupts, resource_source })
        } else if kind == 0x0A {
            if data_len < 43 {
                return Err(AmlParseError::InvalidResourceTemplate);
            }
            Some(ResourceMacro::AddressSpaceQWord(AddressSpace::<u64>::parse(&mut inner)?))
        } else if kind == 0x0B {
            if data_len < 53 {
                return Err(AmlParseError::InvalidResourceTemplate);
            }
            Some(ResourceMacro::AddressSpaceExtended(AddressSpace::<u64>::parse_extended(&mut inner)?))
        } else {
            None
        };
        if result.is_some() && !inner.is_done() {
            // there is data left after the descriptor
            return Err(AmlParseError::InvalidResourceTemplate);
        }
        Ok(result)
    }

    /// The next resource descriptor.
    pub fn try_parse_buffer(parser: &mut Parser) -> (r: Result<Option<ResourceMacro>, AmlParseError>)
        requires
            old(parser).wf(),
        ensures
            final(parser).wf(),
            moved_on(*old(parser), *final(parser)),
            r matches Ok(Some(_)) ==> final(parser).pos > old(parser).pos,
            old(parser).pos >= old(parser).end ==> (r matches Err(AmlParseError::UnexpectedEndOfCode)),
            ({
                let s = old(parser).buffer@;
                let p = old(parser).pos as int;
                let e = old(parser).end as int;
                &&& p < e && s[p] == 0x38 ==> (r matches Ok(Some(ResourceMacro::EndDependentFunctions))
                    && final(parser).pos == p + 1)
                &&& p < e && s[p] == 0x79 ==> (r matches Err(AmlParseError::ResourceTemplateReservedTag))
                &&& unknown_tag_at(s, p, e) ==> r == Ok::<Option<ResourceMacro>, AmlParseError>(None)
                &&& r matches Ok(Some(m)) ==> descriptor_decoded(s, p, e, m, final(parser).pos as int)
                &&& p < e && s[p] < 0x80 && (known_small_tag(s[p]) || s[p] == 0x79) ==> small_decoded(
                    s[p],
                    s,
                    p + 1,
                    e,
                    r,
                    final(parser).pos as int,
                )
                &&& p < e && s[p] >= 0x80 ==> large_decoded(s[p], s, p + 1, e, r, final(parser).pos as int)
                &&& descriptor_at(s, p, e) matches Some((m, q)) ==> r == Ok::<Option<ResourceMacro>, AmlParseError>(Some(m))
                    && final(parser).pos == q
            }),
    {
        proof {
            let s = parser.buffer@;
            let p = parser.pos as int;
            crate::bytes::lemma_le_at_bound(s, p + 1, 2);
            crate::bytes::lemma_le_at_bound(s, p + 2, 2);
            crate::bytes::lemma_le_at_bound(s, p + 4, 2);
            crate::bytes::lemma_le_at_bound(s, p + 4, 4);
            crate::bytes::lemma_le_at_bound(s, p + 8, 4);
            crate::bytes::lemma_le_at_bound(s, p + 12, 4);
            crate::bytes::lemma_le_at_bound(s, p + 16, 4);
            crate::bytes::lemma_le_at_bound(s, p + 4, 2);
            crate::bytes::lemma_le_at_bound(s, p + 6, 2);
            crate::bytes::lemma_le_at_bound(s, p + 8, 2);
            crate::bytes::lemma_le_at_bound(s, p + 10, 2);
            reveal_with_fuel(crate::bytes::pow256, 5);
        }
        let first = parser.get_next_byte()?;
        if let Some(result) = Self::try_parse_small_resource(parser, first)? {
            return Ok(Some(result));
        }
        Self::try_parse_large_resource(parser, first)
    }
}

/// The transfer type of a DMA descriptor's flags (two low bits, not 3).
pub open spec fn dma_transfer_type_of(b: u8) -> DmaTrasferType {
    if b == 0 {
        DmaTrasferType::Transfer8
    } else if b == 1 {
        DmaTrasferType::Transfer8_16
    } else {
        DmaTrasferType::Transfer16
    }
}

/// The speed of a DMA descriptor's flags (bits 5 and 6).
pub open spec fn dma_speed_of(b: u8) -> DmaSpeedType {
    if b == 0 {
        DmaSpeedType::Compatibility
    } else if b == 1 {
        DmaSpeedType::TypeA
    } else if b == 2 {
        DmaSpeedType::TypeB
    } else {
        DmaSpeedType::TypeF
    }
}

/// The transfer width of a fixed DMA descriptor; above 5 is reserved.
pub open spec fn dma_width_of(w: u8) -> Option<DmaTransferWidth> {
    if w == 0 {
        Some(DmaTransferWidth::Width8Bit)
    } else if w == 1 {
        Some(DmaTransferWidth::Width16Bit)
    } else if w == 2 {
        Some(DmaTransferWidth::Width32Bit)
    } else if w == 3 {
        Some(DmaTransferWidth::Width64Bit)
    } else if w == 4 {
        Some(DmaTransferWidth::Width128Bit)
    } else if w == 5 {
        Some(DmaTransferWidth::Width256Bit)
    } else {
        None
    }
}

/// The optional source index and name that end a descriptor, read from
/// `q` up to `end`: the index is the byte at `q` if there is one; a name is
/// there when more bytes follow.
pub open spec fn source_at(src: ResourceSource, s: Seq<u8>, q: int, end: int) -> bool {
    &&& (q < end) == (src.index == Some(s[q]))
    &&& (q >= end) == (src.index is None)
    &&& (q + 1 < end) == (src.source is Some)
}

/// The resource source of an address space descriptor of `w`-byte numbers
/// whose data starts at `q` and ends at `end`.
pub open spec fn address_source_at<W: AddressWidth>(a: AddressSpace<W>, s: Seq<u8>, q: int, end: int) -> bool {
    a.extra matches ResourceSourceOrTypeSpecificAttrs::ResourceSource(src) && source_at(
        src,
        s,
        q + 3 + 5 * W::spec_width(),
        end,
    )
}

/// What the small-resource decoder gives for the tag `first` whose data
/// starts at `p`, before `e`: the decoded fields of each tag it knows (and
/// `fpos`, the position after the descriptor, for some), or the error.
pub open spec fn small_decoded(first: u8, s: Seq<u8>, p: int, e: int, r: Result<Option<ResourceMacro>, AmlParseError>, fpos: int) -> bool {
    &&& (first == 0x22 && p + 2 <= e) ==> (r matches Ok(Some(ResourceMacro::Irq { wake_capable, is_shared, active_low, edge_triggered, irqs_mask }))
        && irqs_mask == le_at(s, p, 2) && !wake_capable && !is_shared && !active_low && edge_triggered
        && fpos == p + 2)
    &&& (first == 0x23 && p + 3 <= e && s[p + 2] / 64 == 0) ==> (r matches Ok(Some(ResourceMacro::Irq { wake_capable, is_shared, active_low, edge_triggered, irqs_mask }))
        && irqs_mask == le_at(s, p, 2) && edge_triggered == bit(s[p + 2], 0)
        && active_low == bit(s[p + 2], 3) && is_shared == bit(s[p + 2], 4)
        && wake_capable == bit(s[p + 2], 5) && fpos == p + 3)
    &&& (first == 0x23 && p + 3 <= e && s[p + 2] / 64 != 0) ==> (r matches Err(AmlParseError::ReservedFieldSet))
    &&& (first == 0x38) ==> (r matches Ok(Some(ResourceMacro::EndDependentFunctions)) && fpos == p)
    &&& (first == 0x30) ==> (r matches Ok(Some(ResourceMacro::StartDependentFunctions { compatibility_priority, performance_priority }))
        && compatibility_priority == 1 && performance_priority == 1 && fpos == p)
    &&& (first == 0x31 && p + 1 <= e && s[p] / 16 == 0) ==> (r matches Ok(Some(ResourceMacro::StartDependentFunctions { compatibility_priority, performance_priority }))
        && compatibility_priority == s[p] % 4 && performance_priority == (s[p] / 4) % 4 && fpos == p + 1)
    &&& (first == 0x31 && p + 1 <= e && s[p] / 16 != 0) ==> (r matches Err(AmlParseError::ReservedFieldSet))
    &&& (first == 0x47 && p + 7 <= e) ==> (r matches Ok(Some(ResourceMacro::Io { is_16_bit_decode, min_addr, max_addr, alignment, len }))
        && is_16_bit_decode == bit(s[p], 0) && min_addr == le_at(s, p + 1, 2)
        && max_addr == le_at(s, p + 3, 2) && alignment == s[p + 5] && len == s[p + 6]
        && fpos == p + 7)
    &&& (first == 0x4B && p + 3 <= e) ==> (r matches Ok(Some(ResourceMacro::FixedIo { base, len }))
        && base == le_at(s, p, 2) % 1024 && len == s[p + 2] && fpos == p + 3)
    &&& (first == 0x2A && p + 2 <= e && s[p + 1] / 128 == 0 && s[p + 1] % 4 != 3) ==> (r matches Ok(Some(ResourceMacro::Dma { speed_ty, is_bus_master, transfer_type, channels_mask }))
        && channels_mask == s[p] && is_bus_master == bit(s[p + 1], 2) && transfer_type == dma_transfer_type_of(s[p + 1] % 4)
        && speed_ty == dma_speed_of((s[p + 1] / 32) % 4) && fpos == p + 2)
    &&& (first == 0x55 && p + 5 <= e) ==> match dma_width_of(s[p + 4]) {
        Some(w) => r matches Ok(Some(ResourceMacro::FixedDma { dma_req, channel, transfer_width })) && dma_req == le_at(s, p, 2)
            && channel == le_at(s, p + 2, 2) && transfer_width == w && fpos == p + 5,
        None => r matches Err(AmlParseError::ReservedFieldSet),
    }
    &&& (first == 0x2A && p + 2 <= e && (s[p + 1] / 128 != 0 || s[p + 1] % 4 == 3)) ==> (r matches Err(AmlParseError::ReservedFieldSet))
    &&& (0x71 <= first <= 0x77 && p + (first % 8) - 1 <= e) ==> (r matches Ok(Some(ResourceMacro::VendorShort { data, len }))
        && len == first % 8 - 1 && (forall|i: int| 0 <= i < 6 ==> data@[i] == if i < len { s[p + i] } else { 0u8 })
        && fpos == p + len)
}

/// What the large-resource decoder gives for the tag `first` whose length
/// field starts at `p`, before `e`: where it ends (`fpos`), the decoded
/// fields of each tag, or the error.
pub open spec fn large_decoded(first: u8, s: Seq<u8>, p: int, e: int, r: Result<Option<ResourceMacro>, AmlParseError>, fpos: int) -> bool {
    let len = le_at(s, p, 2);
    &&& first >= 0x80 && p + 2 + len <= e ==> fpos == p + 2 + len
        || r is Err
    &&& (first == 0x86 && p + 2 + len <= e && len == 9) ==> (r matches Ok(Some(ResourceMacro::Memory32Fixed { is_read_write, base_addr, len: l }))
        && is_read_write == bit(s[p + 2], 0) && base_addr == le_at(s, p + 3, 4) && l == le_at(s, p + 7, 4))
    &&& (first == 0x85 && p + 2 + len <= e && len == 17) ==> (r matches Ok(Some(ResourceMacro::Memory32 { is_read_write, min_addr, max_addr, alignment, len: l }))
        && is_read_write == bit(s[p + 2], 0) && min_addr == le_at(s, p + 3, 4)
        && max_addr == le_at(s, p + 7, 4) && alignment == le_at(s, p + 11, 4) && l == le_at(s, p + 15, 4))
    &&& (first == 0x81 && p + 2 + len <= e && len == 9) ==> (r matches Ok(Some(ResourceMacro::Memory24 { is_read_write, min_addr, max_addr, alignment, len: l }))
        && is_read_write == bit(s[p + 2], 0) && min_addr == 256 * le_at(s, p + 3, 2)
        && max_addr == 256 * le_at(s, p + 5, 2) && alignment == le_at(s, p + 7, 2) && l == le_at(s, p + 9, 2))
    &&& (first >= 0x80 && ((first % 128) == 0 || (first % 128) == 3 || (first % 128) >= 0x13) && p + 2 + len <= e)
        ==> (r matches Err(AmlParseError::ResourceTemplateReservedTag))
    &&& (first == 0x87 && p + 2 + len <= e) ==> if len >= 23 && address_space_type_of(4, s[p + 2], s[p + 4]) is Some {
        r matches Ok(Some(ResourceMacro::AddressSpaceDWord(a))) && address_flags_at(s, p + 2, a)
            && address_numbers_at(s, p + 5, a) && address_source_at(a, s, p + 2, p + 2 + len)
    } else {
        r is Err
    }
    &&& (first == 0x88 && p + 2 + len <= e) ==> if len >= 13 && address_space_type_of(2, s[p + 2], s[p + 4]) is Some {
        r matches Ok(Some(ResourceMacro::AddressSpaceWord(a))) && address_flags_at(s, p + 2, a)
            && address_numbers_at(s, p + 5, a) && address_source_at(a, s, p + 2, p + 2 + len)
    } else {
        r is Err
    }
    &&& (first == 0x8A && p + 2 + len <= e) ==> if len >= 43 && address_space_type_of(8, s[p + 2], s[p + 4]) is Some {
        r matches Ok(Some(ResourceMacro::AddressSpaceQWord(a))) && address_flags_at(s, p + 2, a)
            && address_numbers_at(s, p + 5, a) && address_source_at(a, s, p + 2, p + 2 + len)
    } else {
        r is Err
    }
    &&& (first == 0x8B && p + 2 + len <= e) ==> if len == 53 && address_space_type_of(8, s[p + 2], s[p + 4]) is Some
        && s[p + 5] == 1 && s[p + 6] == 0 {
        r matches Ok(Some(ResourceMacro::AddressSpaceExtended(a))) && address_flags_at(s, p + 2, a)
            && address_numbers_at(s, p + 7, a)
            && a.extra == ResourceSourceOrTypeSpecificAttrs::TypeSpecificAttrs(le_at(s, p + 47, 8) as u64)
    } else {
        r is Err
    }
    &&& (first == 0x84 && p + 2 + len <= e) ==> if len > 0 {
        r matches Ok(Some(ResourceMacro::VendorLarge { data })) && data@.len() == 0
    } else {
        r matches Err(AmlParseError::UnexpectedEndOfCode)
    }
    &&& (first == 0x82 && p + 2 + len <= e && len == 12) ==> (r is Ok <==> (
        (region_space_of(s[p + 2]) is Other ==> s[p + 2] == 0x7F)
        && access_type_of(s[p + 5]) is Some && !(access_type_of(s[p + 5])->0 is Buffer)))
    &&& (first == 0x82 && p + 2 + len <= e) ==> (r matches Ok(Some(ResourceMacro::Register { address_space, bit_width, offset, address, access_size }))
        ==> len == 12 && address_space == register_space(s[p + 2]) && bit_width == s[p + 3] && offset == s[p + 4]
        && Some(access_size) == access_type_of(s[p + 5]) && address == le_at(s, p + 6, 8))
    &&& (first == 0x89 && p + 2 + len <= e && len >= 6) ==> if 2 + 4 * s[p + 3] <= len {
        r matches Ok(Some(ResourceMacro::Interrupt { is_consumer, edge_triggered, active_low, is_shared, wake_capable, interrupts, resource_source }))
            && is_consumer == bit(s[p + 2], 0) && edge_triggered == bit(s[p + 2], 1)
            && active_low == bit(s[p + 2], 2) && is_shared == bit(s[p + 2], 3) && wake_capable == bit(s[p + 2], 4)
            && interrupts@.len() == s[p + 3]
            && (forall|i: int| 0 <= i < s[p + 3] ==> #[trigger] interrupts@[i] == le_at(s, p + 4 + 4 * i, 4))
            && source_at(resource_source, s, p + 4 + 4 * s[p + 3], p + 2 + len)
    } else {
        r matches Err(AmlParseError::UnexpectedEndOfCode)
    }
}

/// The descriptor `m` is what the decoder gives for the descriptor whose
/// tag is at `p`, and the next one starts at `q`.
pub open spec fn descriptor_decoded(s: Seq<u8>, p: int, e: int, m: ResourceMacro, q: int) -> bool {
    &&& 0 <= p < q <= e
    &&& if s[p] >= 0x80 {
        large_decoded(s[p], s, p + 1, e, Ok(Some(m)), q)
    } else {
        known_small_tag(s[p]) && small_decoded(s[p], s, p + 1, e, Ok(Some(m)), q)
    }
}

/// The descriptors `items` lie one after the other from the start of `s` up
/// to `e`, the `i`-th from `starts[i]`, each as the decoder gives it.
pub open spec fn descriptors_laid_out(s: Seq<u8>, items: Seq<ResourceMacro>, starts: Seq<int>, e: int) -> bool {
    &&& starts.len() == items.len() + 1
    &&& starts[0] == 0
    &&& starts[items.len() as int] == e
    &&& forall|i: int| 0 <= i < items.len() ==> descriptor_decoded(s, starts[i], e, #[trigger] items[i], starts[i + 1])
}

/// The descriptor whose tag is at `p`, for the tags whose decoding is fixed
/// by their bytes alone (dependent functions, IRQ without flags, I/O, fixed
/// I/O and the 24- and 32-bit memory ranges): the descriptor and the
/// position after it. `None` for other tags or when it does not fit before
/// `e`.
pub open spec fn descriptor_at(s: Seq<u8>, p: int, e: int) -> Option<(ResourceMacro, int)> {
    if p < 0 || p >= e {
        None
    } else {
        let tag = s[p];
        let q = p + 1;
        if tag == 0x38 {
            Some((ResourceMacro::EndDependentFunctions, q))
        } else if tag == 0x30 {
            Some((ResourceMacro::StartDependentFunctions { compatibility_priority: 1, performance_priority: 1 }, q))
        } else if tag == 0x22 && q + 2 <= e {
            Some((
                ResourceMacro::Irq {
                    wake_capable: false,
                    is_shared: false,
                    active_low: false,
                    edge_triggered: true,
                    irqs_mask: le_at(s, q, 2) as u16,
                },
                q + 2,
            ))
        } else if tag == 0x47 && q + 7 <= e {
            Some((
                ResourceMacro::Io {
                    is_16_bit_decode: bit(s[q], 0),
                    min_addr: le_at(s, q + 1, 2) as u16,
                    max_addr: le_at(s, q + 3, 2) as u16,
                    alignment: s[q + 5],
                    len: s[q + 6],
                },
                q + 7,
            ))
        } else if tag == 0x4B && q + 3 <= e {
            Some((ResourceMacro::FixedIo { base: (le_at(s, q, 2) % 1024) as u16, len: s[q + 2] }, q + 3))
        } else if tag == 0x86 && q + 11 <= e && le_at(s, q, 2) == 9 {
            Some((
                ResourceMacro::Memory32Fixed {
                    is_read_write: bit(s[q + 2], 0),
                    base_addr: le_at(s, q + 3, 4) as u32,
                    len: le_at(s, q + 7, 4) as u32,
                },
                q + 11,
            ))
        } else if tag == 0x85 && q + 19 <= e && le_at(s, q, 2) == 17 {
            Some((
                ResourceMacro::Memory32 {
                    is_read_write: bit(s[q + 2], 0),
                    min_addr: le_at(s, q + 3, 4) as u32,
                    max_addr: le_at(s, q + 7, 4) as u32,
                    alignment: le_at(s, q + 11, 4) as u32,
                    len: le_at(s, q + 15, 4) as u32,
                },
                q + 19,
            ))
        } else if tag == 0x81 && q + 11 <= e && le_at(s, q, 2) == 9 {
            Some((
                ResourceMacro::Memory24 {
                    is_read_write: bit(s[q + 2], 0),
                    min_addr: (256 * le_at(s, q + 3, 2)) as u32,
                    max_addr: (256 * le_at(s, q + 5, 2)) as u32,
                    alignment: le_at(s, q + 7, 2) as u16,
                    len: le_at(s, q + 9, 2) as u16,
                },
                q + 11,
            ))
        } else {
            None
        }
    }
}

/// A small-resource tag at `p` that the decoder does not know (and that is
/// not the end tag): the descriptor is not decoded.
pub open spec fn unknown_tag_at(s: Seq<u8>, p: int, e: int) -> bool {
    0 <= p < e && s[p] < 0x80 && !known_small_tag(s[p]) && s[p] != 0x79
}

/// What a template's descriptors from `p` to `e` decode to, when each is an
/// unknown small tag or one that `descriptor_at` decodes: `Some(items)`
/// with the items in order, or `None` when an unknown tag comes before any
/// other descriptor this model leaves open. The outer `None` is for the
/// rest.
pub open spec fn template_outcome(s: Seq<u8>, p: int, e: int) -> Option<Option<Seq<ResourceMacro>>>
    decreases e - p,
{
    if p < 0 || p >= e {
        Some(Some(Seq::empty()))
    } else if unknown_tag_at(s, p, e) {
        Some(None)
    } else {
        match descriptor_at(s, p, e) {
            Some((m, q)) => if p < q <= e {
                match template_outcome(s, q, e) {
                    Some(Some(rest)) => Some(Some(seq![m] + rest)),
                    other => other,
                }
            } else {
                None
            },
            None => None,
        }
    }
}

/// The address space of a generic register descriptor: the region space
/// of its byte, with the functional fixed hardware one for `0x7F`.
pub open spec fn register_space(b: u8) -> RegionSpace {
    if region_space_of(b) is Other {
        RegionSpace::FFixedHW
    } else {
        region_space_of(b)
    }
}

/// Whether a buffer looks like a resource template: it ends with the end
/// tag and a checksum byte, and the checksum is right or zero.
pub open spec fn looks_like_template(data: Seq<u8>) -> bool {
    &&& data.len() >= 2
    &&& data[data.len() - 2] == 0x79
    &&& (byte_sum(data) == 0 || data.last() == 0)
}

#[derive(Debug, Clone)]
pub struct ResourceTemplate {
    pub items: Vec<ResourceMacro>,
}

impl ResourceTemplate {
    /// Decodes a buffer as a resource template. `None` when the buffer
    /// does not look like one, or holds a descriptor that is not decoded.
    pub fn try_parse_buffer(buf: &Buffer) -> (r: Result<Option<ResourceTemplate>, AmlParseError>)
        ensures
            !looks_like_template(buf.data@) ==> r == Ok::<Option<ResourceTemplate>, AmlParseError>(None),
            ({
                let d = buf.data@;
                looks_like_template(d) ==> match template_outcome(d, 0, d.len() - 2) {
                    Some(Some(items)) => r matches Ok(Some(t)) && t.items@ == items,
                    Some(None) => r == Ok::<Option<ResourceTemplate>, AmlParseError>(None),
                    None => true,
                }
            }),
            r matches Ok(Some(t)) ==> looks_like_template(buf.data@) && exists|starts: Seq<int>|
                #[trigger] descriptors_laid_out(buf.data@, t.items@, starts, buf.data@.len() - 2),
            ({
                let d = buf.data@;
                looks_like_template(d) && d.len() > 2 && d[0] == 0x79 ==> (r matches Err(
                    AmlParseError::ResourceTemplateReservedTag,
                ))
            }),
    {
        let ghost d = buf.data@;
        let data = buf.data.as_slice();
        if data.len() < 2 || data[data.len() - 2] != 0x79 {
            return Ok(None);
        }
        let sum = sum_bytes(data);
        if sum != 0 && data[data.len() - 1] != 0 {
            return Ok(None);
        }
        let ghost e = d.len() - 2;
        let ghost known = template_outcome(d, 0, e) is Some;
        let ghost whole = template_outcome(d, 0, e)->0;
        let mut parser = Parser::new(data, data.len() - 2);
        let mut items = Vec::new();
        let ghost mut starts: Seq<int> = seq![0int];
        while !parser.is_done()
            invariant
                parser.wf(),
                looks_like_template(buf.data@),
                d == buf.data@,
                parser.buffer@ == d,
                parser.end == e,
                e == d.len() - 2,
                known == (template_outcome(d, 0, e) is Some),
                whole == template_outcome(d, 0, e)->0,
                known ==> (template_outcome(d, parser.pos as int, e) matches Some(o) && match o {
                    Some(rest) => whole == Some(items@ + rest),
                    None => whole is None,
                }),
                d.len() > 2 && d[0] == 0x79 ==> parser.pos == 0,
                starts.len() == items@.len() + 1,
                starts[0] == 0,
                starts[items@.len() as int] == parser.pos,
                forall|i: int| 0 <= i < items@.len() ==> descriptor_decoded(d, starts[i], e, #[trigger] items@[i], starts[i + 1]),
            decreases parser.end - parser.pos,
        {
            let ghost p = parser.pos as int;
            let ghost before = items@;
            let ghost starts_before = starts;
            match ResourceMacro::try_parse_buffer(&mut parser)? {
                Some(item) => {
                    items.push(item);
                    proof {
                        starts = starts_before.push(parser.pos as int);
                        assert forall|i: int| 0 <= i < items@.len() implies descriptor_decoded(
                            d,
                            starts[i],
                            e,
                            #[trigger] items@[i],
                            starts[i + 1],
                        ) by {
                            if i < before.len() {
                                assert(items@[i] == before[i]);
                                assert(starts[i] == starts_before[i] && starts[i + 1] == starts_before[i + 1]);
                            }
                        }
                        if known {
                            let o = template_outcome(d, p, e)->0;
                            if o is Some {
                                let rest = o->0;
                                let rest2 = template_outcome(d, parser.pos as int, e)->0->0;
                                assert(rest == seq![item] + rest2);
                                assert(before + (seq![item] + rest2) =~= items@ + rest2);
                            }
                        }
                    }
                },
                None => {
                    return Ok(None);
                },
            }
        }
        proof {
            if known {
                assert(items@ + Seq::<ResourceMacro>::empty() =~= items@);
            }
            assert(descriptors_laid_out(d, items@, starts, e));
        }
        let res = ResourceTemplate { items };
        assert(descriptors_laid_out(buf.data@, res.items@, starts, buf.data@.len() - 2));
        assert(looks_like_template(buf.data@) && exists|st: Seq<int>|
            #[trigger] descriptors_laid_out(buf.data@, res.items@, st, buf.data@.len() - 2));
        let r: Result<Option<ResourceTemplate>, AmlParseError> = Ok(Some(res));
        assert(r matches Ok(Some(t)) && t.items@ == res.items@);
        r
    }
}

} // verus!
