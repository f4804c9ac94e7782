//! The global descriptor table: segment selectors, descriptor encodings,
//! and the segments the kernel sets up. Loading the table into the
//! processor is left to the caller.

use vstd::prelude::*;

verus! {

pub const KERNEL_RING: u8 = 0;
pub const USER_RING: u8 = 3;

/// Descriptor flags.
pub const FLAG_LONG_MODE: u8 = 0x20;
pub const FLAG_PRESENT: u8 = 0x80;
pub const FLAG_CODE: u8 = 0x08;
pub const FLAG_USER: u8 = 0x10;
pub const FLAG_WRITE: u8 = 0x02;
pub const FLAG_TSS_TYPE: u8 = 0x09;

/// The descriptor privilege level bits for a ring.
pub fn dpl(ring: u8) -> (r: u8)
    requires
        ring < 8,
    ensures
        r == ring * 32,
{
    proof {
        crate::bits::lemma_u8(ring);
    }
    ring << 5u8
}

/// A segment selector: the descriptor's index times eight.
#[derive(Debug, Clone, Copy, PartialEq, Eq, Structural)]
pub struct SegmentSelector(pub u64);

impl SegmentSelector {
    pub fn from_index(index: usize) -> (r: Self)
        requires
            index < 8192,
        ensures
            r.0 == index * 8,
    {
        SegmentSelector((index * 8) as u64)
    }
}

/// A code or data segment descriptor.
#[derive(Debug, Clone, Copy, PartialEq, Eq, Structural)]
pub struct UserDescriptorEntry {
    pub limit_low: u16,
    pub base_low: u16,
    pub base_middle: u8,
    pub access: u8,
    pub flags_and_limit: u8,
    pub base_high: u8,
}

/// The descriptor as it is laid out in the table: the fields in order,
/// little-endian.
pub open spec fn user_entry_value(e: UserDescriptorEntry) -> int {
    e.limit_low + e.base_low * 0x1_0000 + e.base_middle * 0x1_0000_0000 + e.access * 0x100_0000_0000
        + e.flags_and_limit * 0x1_0000_0000_0000 + e.base_high * 0x100_0000_0000_0000
}

impl UserDescriptorEntry {
    pub fn empty() -> (r: Self)
        ensures
            r == (UserDescriptorEntry {
                limit_low: 0,
                base_low: 0,
                base_middle: 0,
                access: 0,
                flags_and_limit: 0,
                base_high: 0,
            }),
    {
        UserDescriptorEntry { limit_low: 0, base_low: 0, base_middle: 0, access: 0, flags_and_limit: 0, base_high: 0 }
    }

    /// The 64-bit table entry.
    pub fn to_u64(&self) -> (r: u64)
        ensures
            r == user_entry_value(*self),
    {
        let a = self.limit_low as u64;
        let b = self.base_low as u64;
        let c = self.base_middle as u64;
        let d = self.access as u64;
        let e = self.flags_and_limit as u64;
        let f = self.base_high as u64;
        proof {
            crate::bits::lemma_pack_16_16_8_8_8_8(a, b, c, d, e, f);
        }
        a | (b << 16u64) | (c << 32u64) | (d << 40u64) | (e << 48u64) | (f << 56u64)
    }
}

/// A system segment descriptor (16 bytes), such as the task state segment's.
#[derive(Debug, Clone, Copy, PartialEq, Eq, Structural)]
pub struct SystemDescriptorEntry {
    pub limit: u16,
    pub base_low: u16,
    pub base_middle: u8,
    pub access: u8,
    pub flags_and_limit: u8,
    pub base_high: u8,
    pub base_upper: u32,
    pub zero: u32,
}

impl SystemDescriptorEntry {
    pub fn empty() -> (r: Self)
        ensures
            r == (SystemDescriptorEntry {
                limit: 0,
                base_low: 0,
                base_middle: 0,
                access: 0,
                flags_and_limit: 0,
                base_high: 0,
                base_upper: 0,
                zero: 0,
            }),
    {
        SystemDescriptorEntry {
            limit: 0,
            base_low: 0,
            base_middle: 0,
            access: 0,
            flags_and_limit: 0,
            base_high: 0,
            base_upper: 0,
            zero: 0,
        }
    }

    /// The two 64-bit table entries.
    pub fn to_u64s(&self) -> (r: (u64, u64))
        ensures
            r.0 == user_entry_value(
                UserDescriptorEntry {
                    limit_low: self.limit,
                    base_low: self.base_low,
                    base_middle: self.base_middle,
                    access: self.access,
                    flags_and_limit: self.flags_and_limit,
                    base_high: self.base_high,
                },
            ),
            r.1 == self.base_upper + self.zero * 0x1_0000_0000,
    {
        let low = UserDescriptorEntry {
            limit_low: self.limit,
            base_low: self.base_low,
            base_middle: self.base_middle,
            access: self.access,
            flags_and_limit: self.flags_and_limit,
            base_high: self.base_high,
        }.to_u64();
        let u = self.base_upper as u64;
        let z = self.zero as u64;
        proof {
            crate::bits::lemma_join_u32(self.base_upper, self.zero);
        }
        (low, u | (z << 32u64))
    }
}

/// The task state segment.
#[derive(Debug, Clone, Copy)]
pub struct TaskStateSegment {
    pub reserved: u32,
    pub rsp: [u64; 3],
    pub reserved2: u64,
    pub ist: [u64; 7],
    pub reserved3: u64,
    pub reserved4: u16,
    pub iomap_base: u16,
}

impl TaskStateSegment {
    pub fn empty() -> (r: Self)
        ensures
            r.rsp@ == seq![0u64; 3],
            r.ist@ == seq![0u64; 7],
            r.iomap_base == 0,
    {
        let r = TaskStateSegment {
            reserved: 0,
            rsp: [0, 0, 0],
            reserved2: 0,
            ist: [0, 0, 0, 0, 0, 0, 0],
            reserved3: 0,
            reserved4: 0,
            iomap_base: 0,
        };
        assert(r.rsp@ =~= seq![0u64; 3]);
        assert(r.ist@ =~= seq![0u64; 7]);
        r
    }
}

/// The table: eight entries, entry zero unused, and the next free index.
#[derive(Debug, Clone, Copy)]
pub struct GlobalDescriptorTable {
    pub data: [u64; 8],
    pub index: usize,
}

impl GlobalDescriptorTable {
    pub fn empty() -> (r: Self)
        ensures
            r.data@ == seq![0u64; 8],
            r.index == 1,
    {
        let r = GlobalDescriptorTable { data: [0, 0, 0, 0, 0, 0, 0, 0], index: 1 };
        assert(r.data@ =~= seq![0u64; 8]);
        r
    }

    /// Appends a code or data descriptor; gives its index.
    pub fn push_user(&mut self, entry: UserDescriptorEntry) -> (r: usize)
        requires
            old(self).index < 8,
        ensures
            r == old(self).index,
            final(self).index == old(self).index + 1,
            final(self).data@ == old(self).data@.update(r as int, user_entry_value(entry) as u64),
    {
        let index = self.index;
        let v = entry.to_u64();
        self.data.set(index, v);
        self.index = index + 1;
        index
    }

    /// Appends a system descriptor in two entries; gives its index.
    pub fn push_system(&mut self, entry: SystemDescriptorEntry) -> (r: usize)
        requires
            old(self).index + 1 < 8,
        ensures
            r == old(self).index,
            final(self).index == old(self).index + 2,
            final(self).data@ == old(self).data@.update(r as int, entry.to_u64s_spec().0).update(
                r + 1,
                entry.to_u64s_spec().1,
            ),
    {
        let index = self.index;
        let (a, b) = entry.to_u64s();
        self.data.set(index, a);
        self.data.set(index + 1, b);
        self.index = index + 2;
        index
    }

    /// The limit of the table for the processor: the bytes used, minus one.
    pub fn limit(&self) -> (r: u16)
        requires
            1 <= self.index <= 8,
        ensures
            r == self.index * 8 - 1,
    {
        (self.index * 8 - 1) as u16
    }
}

impl SystemDescriptorEntry {
    pub open spec fn to_u64s_spec(self) -> (u64, u64) {
        (
            user_entry_value(
                UserDescriptorEntry {
                    limit_low: self.limit,
                    base_low: self.base_low,
                    base_middle: self.base_middle,
                    access: self.access,
                    flags_and_limit: self.flags_and_limit,
                    base_high: self.base_high,
                },
            ) as u64,
            (self.base_upper + self.zero * 0x1_0000_0000) as u64,
        )
    }
}

/// The table, the task state segment, and the selectors of the segments
/// the kernel uses.
#[derive(Debug, Clone, Copy)]
pub struct GlobalDescriptorManager {
    pub gdt: GlobalDescriptorTable,
    pub tss: TaskStateSegment,
    pub kernel_code_seg: SegmentSelector,
    pub user_code_seg: SegmentSelector,
    pub kernel_data_seg: SegmentSelector,
    pub user_data_seg: SegmentSelector,
    pub tss_seg: SegmentSelector,
}

impl GlobalDescriptorManager {
    pub fn empty() -> (r: Self)
        ensures
            r.gdt.index == 1,
            r.kernel_code_seg.0 == 0 && r.user_code_seg.0 == 0 && r.kernel_data_seg.0 == 0
                && r.user_data_seg.0 == 0 && r.tss_seg.0 == 0,
    {
        GlobalDescriptorManager {
            gdt: GlobalDescriptorTable::empty(),
            tss: TaskStateSegment::empty(),
            kernel_code_seg: SegmentSelector::from_index(0),
            user_code_seg: SegmentSelector::from_index(0),
            kernel_data_seg: SegmentSelector::from_index(0),
            user_data_seg: SegmentSelector::from_index(0),
            tss_seg: SegmentSelector::from_index(0),
        }
    }

    /// Fills the table: kernel code, user code, kernel data and user data
    /// segments, then the task state segment at `tss_address`, whose
    /// interrupt stacks end at `stack_ends` and whose kernel stack ends at
    /// `kernel_stack_end` (each pointer eight bytes below its end).
    pub fn init_segments(&mut self, tss_address: u64, stack_ends: [u64; 7], kernel_stack_end: u64)
        requires
            old(self).gdt.index == 1,
            forall|i: int| 0 <= i < 7 ==> stack_ends@[i] >= 8,
            kernel_stack_end >= 8,
        ensures
            final(self).kernel_code_seg.0 == 8,
            final(self).user_code_seg.0 == 16,
            final(self).kernel_data_seg.0 == 24,
            final(self).user_data_seg.0 == 32,
            final(self).tss_seg.0 == 40,
            final(self).gdt.index == 7,
            final(self).gdt.data@[1] == 0x0020_9800_0000_0000u64,
            final(self).gdt.data@[2] == 0x0020_f800_0000_0000u64,
            final(self).gdt.data@[3] == 0x0000_9200_0000_0000u64,
            final(self).gdt.data@[4] == 0x0000_f200_0000_0000u64,
            forall|i: int| 0 <= i < 7 ==> #[trigger] final(self).tss.ist@[i] == stack_ends@[i] - 8,
            final(self).tss.rsp@[0] == kernel_stack_end - 8,
    {
        let kernel_code = UserDescriptorEntry {
            access: FLAG_PRESENT | FLAG_CODE | FLAG_USER | dpl(KERNEL_RING),
            flags_and_limit: FLAG_LONG_MODE,
            ..UserDescriptorEntry::empty()
        };
        let user_code = UserDescriptorEntry {
            access: FLAG_PRESENT | FLAG_CODE | FLAG_USER | dpl(USER_RING),
            flags_and_limit: FLAG_LONG_MODE,
            ..UserDescriptorEntry::empty()
        };
        let kernel_data = UserDescriptorEntry {
            access: FLAG_PRESENT | FLAG_USER | FLAG_WRITE | dpl(KERNEL_RING),
            ..UserDescriptorEntry::empty()
        };
        let user_data = UserDescriptorEntry {
            access: FLAG_PRESENT | FLAG_USER | FLAG_WRITE | dpl(USER_RING),
            ..UserDescriptorEntry::empty()
        };
        proof {
            crate::bits::lemma_constants();
        }
        let i1 = self.gdt.push_user(kernel_code);
        self.kernel_code_seg = SegmentSelector::from_index(i1);
        let i2 = self.gdt.push_user(user_code);
        self.user_code_seg = SegmentSelector::from_index(i2);
        let i3 = self.gdt.push_user(kernel_data);
        self.kernel_data_seg = SegmentSelector::from_index(i3);
        let i4 = self.gdt.push_user(user_data);
        self.user_data_seg = SegmentSelector::from_index(i4);
        let ghost g4 = self.gdt;
        assert(g4.index == 5);
        assert(g4.data@[1] == 0x0020_9800_0000_0000u64);
        assert(g4.data@[2] == 0x0020_f800_0000_0000u64);
        assert(g4.data@[3] == 0x0000_9200_0000_0000u64);
        assert(g4.data@[4] == 0x0000_f200_0000_0000u64);
        let mut i: usize = 0;
        while i < 7
            invariant
                i <= 7,
                forall|j: int| 0 <= j < 7 ==> stack_ends@[j] >= 8,
                forall|j: int| 0 <= j < i ==> #[trigger] self.tss.ist@[j] == stack_ends@[j] - 8,
                self.gdt == g4,
                self.kernel_code_seg.0 == 8,
                self.user_code_seg.0 == 16,
                self.kernel_data_seg.0 == 24,
                self.user_data_seg.0 == 32,
                kernel_stack_end >= 8,
            decreases 7 - i,
        {
            self.tss.ist.set(i, stack_ends[i] - 8);
            i = i + 1;
        }
        self.tss.rsp.set(0, kernel_stack_end - 8);
        proof {
            crate::bits::lemma_u64(tss_address);
        }
        let tss_entry = SystemDescriptorEntry {
            limit: 103,
            access: FLAG_PRESENT | FLAG_TSS_TYPE,
            base_low: (tss_address & 0xffff) as u16,
            base_middle: ((tss_address >> 16u64) & 0xff) as u8,
            base_high: ((tss_address >> 24u64) & 0xff) as u8,
            base_upper: ((tss_address >> 32u64) & 0xffff_ffff) as u32,
            ..SystemDescriptorEntry::empty()
        };
        let i5 = self.gdt.push_system(tss_entry);
        self.tss_seg = SegmentSelector::from_index(i5);
    }
}

/// The user code segment's selector.
pub fn get_user_code_seg_index(gdt: &GlobalDescriptorManager) -> (r: SegmentSelector)
    ensures
        r == gdt.user_code_seg,
{
    gdt.user_code_seg
}

/// The user data segment's selector.
pub fn get_user_data_seg_index(gdt: &GlobalDescriptorManager) -> (r: SegmentSelector)
    ensures
        r == gdt.user_data_seg,
{
    gdt.user_data_seg
}

} // verus!
