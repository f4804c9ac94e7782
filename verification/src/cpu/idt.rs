//! Interrupt descriptor table entries and the state saved on interrupts.

use vstd::prelude::*;

verus! {

/// Gate flags.
pub const GATE_TYPE: u8 = 0x0e;
pub const KEEP_INTERRUPTS: u8 = 0x01;
pub const PRESENT: u8 = 0x80;

/// The descriptor privilege level bits for a ring.
pub fn dpl(ring: u8) -> (r: u8)
    requires
        ring < 8,
    ensures
        r == ring * 32,
{
    proof {
        crate::bits::lemma_u8(ring);
    }
    ring << 5u8
}

/// The frame the processor pushes on an interrupt.
#[derive(Debug, Clone, Copy, Default)]
pub struct InterruptStackFrame64 {
    pub rip: u64,
    pub cs: u8,
    pub rflags: u64,
    pub rsp: u64,
    pub ss: u8,
}

/// The registers saved by the common interrupt entry.
#[derive(Debug, Clone, Copy, Default)]
pub struct RestSavedRegisters {
    pub ds: u64,
    pub es: u64,
    pub fs: u64,
    pub gs: u64,
    pub dr0: u64,
    pub dr1: u64,
    pub dr2: u64,
    pub dr3: u64,
    pub dr4: u64,
    pub dr5: u64,
    pub dr6: u64,
    pub dr7: u64,
    pub rax: u64,
    pub rbx: u64,
    pub rcx: u64,
    pub rdx: u64,
    pub rsi: u64,
    pub rdi: u64,
    pub rbp: u64,
    pub r8: u64,
    pub r9: u64,
    pub r10: u64,
    pub r11: u64,
    pub r12: u64,
    pub r13: u64,
    pub r14: u64,
    pub r15: u64,
}

/// Everything saved on an interrupt: registers, vector number, error code
/// and the processor's frame.
#[derive(Debug, Clone, Copy, Default)]
pub struct InterruptAllSavedState {
    pub rest: RestSavedRegisters,
    pub number: u64,
    pub error: u64,
    pub frame: InterruptStackFrame64,
}

/// An entry of the interrupt descriptor table.
#[derive(Debug, Clone, Copy, PartialEq, Eq, Structural)]
pub struct InterruptDescriptorTableEntry {
    pub offset_low: u16,
    pub selector: u16,
    pub ist: u8,
    pub flags: u8,
    pub offset_middle: u16,
    pub offset_high: u32,
    pub zero: u32,
}

impl InterruptDescriptorTableEntry {
    /// The handler address held in the entry.
    pub open spec fn handler_address(self) -> int {
        self.offset_low + self.offset_middle * 0x1_0000 + self.offset_high * 0x1_0000_0000
    }

    pub open spec fn empty_spec() -> Self {
        InterruptDescriptorTableEntry {
            offset_low: 0,
            selector: 0,
            ist: 0,
            flags: 0,
            offset_middle: 0,
            offset_high: 0,
            zero: 0,
        }
    }

    pub fn empty() -> (r: Self)
        ensures
            r == Self::empty_spec(),
            r == (InterruptDescriptorTableEntry {
                offset_low: 0,
                selector: 0,
                ist: 0,
                flags: 0,
                offset_middle: 0,
                offset_high: 0,
                zero: 0,
            }),
    {
        InterruptDescriptorTableEntry {
            offset_low: 0,
            selector: 0,
            ist: 0,
            flags: 0,
            offset_middle: 0,
            offset_high: 0,
            zero: 0,
        }
    }

    /// Points the entry at the handler at `handler_addr`, in the code
    /// segment `cs`, as a present interrupt gate on the current stack.
    pub fn set_handler(&mut self, handler_addr: u64, cs: u16) -> (r: &mut Self)
        ensures
            r.handler_address() == handler_addr,
            r.selector == cs,
            r.ist == 0,
            r.flags == 0x8e,
            r.zero == old(self).zero,
            *final(self) == *final(r),
    {
        let h = handler_addr;
        proof {
            crate::bits::lemma_u64(h);
            crate::bits::lemma_constants();
        }
        self.offset_low = h as u16;
        self.offset_middle = (h >> 16u64) as u16;
        self.offset_high = (h >> 32u64) as u32;
        self.ist = 0;
        self.selector = cs;
        self.flags = PRESENT | GATE_TYPE;
        self
    }

    /// Sets the interrupt stack: stack `i` of the task state segment is
    /// entry `i + 1`; none is zero (the current stack).
    /// The entry is handed back for more changes.
    pub fn set_stack_index(&mut self, stack_index: Option<u8>) -> (r: &mut Self)
        requires
            stack_index matches Some(i) ==> i < 7,
        ensures
            *r == (InterruptDescriptorTableEntry {
                ist: match stack_index {
                    Some(i) => (i + 1) as u8,
                    None => 0u8,
                },
                ..*old(self)
            }),
            *final(self) == *final(r),
    {
        let ist = match stack_index {
            Some(i) => i + 1,
            None => 0,
        };
        self.ist = ist;
        self
    }

    /// Clears (to disable interrupts while handling) or sets the bit that
    /// keeps interrupts enabled.
    pub fn set_disable_interrupts(&mut self, disable_interrupts: bool) -> (r: &mut Self)
        ensures
            *r == (InterruptDescriptorTableEntry {
                flags: if disable_interrupts {
                    old(self).flags & 0xfe
                } else {
                    old(self).flags | 0x01
                },
                ..*old(self)
            }),
            *final(self) == *final(r),
    {
        if disable_interrupts {
            let f = self.flags;
            proof {
                crate::bits::lemma_u8(f);
            }
            self.flags = f & !KEEP_INTERRUPTS;
        } else {
            self.flags = self.flags | KEEP_INTERRUPTS;
        }
        self
    }

    pub fn override_code_segment(&mut self, cs: u16) -> (r: &mut Self)
        ensures
            *r == (InterruptDescriptorTableEntry { selector: cs, ..*old(self) }),
            *final(self) == *final(r),
    {
        self.selector = cs;
        self
    }

    /// Sets the privilege level needed to raise the interrupt by software.
    pub fn set_privilege_level(&mut self, ring: u8) -> (r: &mut Self)
        requires
            ring < 4,
        ensures
            *r == (InterruptDescriptorTableEntry { flags: (old(self).flags & 0x9f) | (ring * 32) as u8, ..*old(self) }),
            *final(self) == *final(r),
    {
        let f = self.flags;
        let d = dpl(ring);
        let mask = dpl(3);
        proof {
            crate::bits::lemma_u8(f);
        }
        self.flags = (f & !mask) | d;
        self
    }

    /// The two 64-bit words of the entry as laid out in the table.
    pub fn to_u64s(&self) -> (r: (u64, u64))
        ensures
            r.0 == self.offset_low + self.selector * 0x1_0000 + self.ist * 0x1_0000_0000 + self.flags
                * 0x100_0000_0000 + self.offset_middle * 0x1_0000_0000_0000,
            r.1 == self.offset_high + self.zero * 0x1_0000_0000,
    {
        let a = self.offset_low as u64;
        let b = self.selector as u64;
        let c = self.ist as u64;
        let d = self.flags as u64;
        let e = self.offset_middle as u64;
        proof {
            crate::bits::lemma_pack_16_16_8_8_16(a, b, c, d, e);
        }
        let u = self.offset_high as u64;
        let z = self.zero as u64;
        proof {
            crate::bits::lemma_join_u32(self.offset_high, self.zero);
        }
        (a | (b << 16u64) | (c << 32u64) | (d << 40u64) | (e << 48u64), u | (z << 32u64))
    }
}

/// Whether vector `v` gets a default handler: the exceptions other than
/// the reserved ones, and all the vectors from 32 up.
pub open spec fn has_default_handler(v: int) -> bool {
    (0 <= v <= 8) || (10 <= v <= 14) || (16 <= v <= 19) || v == 21 || (28 <= v <= 30) || (32 <= v < 256)
}

/// The stack of the task state segment that the default handler of vector
/// `v` runs on, where it has one of its own: the faults stack (0) for the
/// bound range, invalid opcode, device not available, page fault and
/// alignment check exceptions, the double fault stack (1) for the double
/// fault.
pub open spec fn default_stack(v: int) -> Option<u8> {
    if v == 5 || v == 6 || v == 7 || v == 14 || v == 17 {
        Some(0u8)
    } else if v == 8 {
        Some(1u8)
    } else {
        None
    }
}

/// Entry `e` calls the handler at `addr` in code segment `cs`, as a present
/// interrupt gate on the stack `stack` (none for the current one).
pub open spec fn gate_for(e: InterruptDescriptorTableEntry, addr: u64, cs: u16, stack: Option<u8>) -> bool {
    &&& e.handler_address() == addr
    &&& e.selector == cs
    &&& e.flags == 0x8e
    &&& e.ist == match stack {
        Some(i) => (i + 1) as u8,
        None => 0u8,
    }
}

/// The 256 entries of the interrupt descriptor table.
pub struct InterruptDescriptorTable {
    pub entries: Vec<InterruptDescriptorTableEntry>,
}

fn gets_default_handler(v: usize) -> (r: bool)
    ensures
        r == has_default_handler(v as int),
{
    v <= 8 || (10 <= v && v <= 14) || (16 <= v && v <= 19) || v == 21 || (28 <= v && v <= 30) || (32 <= v && v < 256)
}

fn stack_of(v: usize) -> (r: Option<u8>)
    ensures
        r == default_stack(v as int),
{
    if v == 5 || v == 6 || v == 7 || v == 14 || v == 17 {
        Some(0)
    } else if v == 8 {
        Some(1)
    } else {
        None
    }
}

impl InterruptDescriptorTable {
    /// A table of 256 empty entries.
    pub fn empty() -> (r: Self)
        ensures
            r.entries@.len() == 256,
            forall|v: int| 0 <= v < 256 ==> #[trigger] r.entries@[v] == InterruptDescriptorTableEntry::empty_spec(),
    {
        let mut entries: Vec<InterruptDescriptorTableEntry> = Vec::new();
        let mut i: usize = 0;
        while i < 256
            invariant
                i <= 256,
                entries@.len() == i,
                forall|v: int| 0 <= v < i ==> #[trigger] entries@[v] == InterruptDescriptorTableEntry::empty_spec(),
            decreases 256 - i,
        {
            entries.push(InterruptDescriptorTableEntry::empty());
            i = i + 1;
        }
        InterruptDescriptorTable { entries }
    }

    /// Gives each vector its default handler, `handlers[v]` for vector `v`,
    /// in code segment `cs`; the reserved exceptions are left as they are.
    pub fn init_default_handlers(&mut self, handlers: &[u64], cs: u16)
        requires
            old(self).entries@.len() == 256,
            handlers@.len() == 256,
        ensures
            final(self).entries@.len() == 256,
            forall|v: int| 0 <= v < 256 && has_default_handler(v) ==> gate_for(
                #[trigger] final(self).entries@[v],
                handlers@[v],
                cs,
                default_stack(v),
            ),
            forall|v: int| 0 <= v < 256 && !has_default_handler(v) ==> #[trigger] final(self).entries@[v]
                == old(self).entries@[v],
    {
        let mut v: usize = 0;
        while v < 256
            invariant
                v <= 256,
                self.entries@.len() == 256,
                handlers@.len() == 256,
                forall|k: int| 0 <= k < v && has_default_handler(k) ==> gate_for(
                    #[trigger] self.entries@[k],
                    handlers@[k],
                    cs,
                    default_stack(k),
                ),
                forall|k: int| (v <= k < 256 || (0 <= k < 256 && !has_default_handler(k))) ==> #[trigger] self.entries@[k]
                    == old(self).entries@[k],
            decreases 256 - v,
        {
            if gets_default_handler(v) {
                let mut e = self.entries[v];
                e.set_handler(handlers[v], cs);
                let stack = stack_of(v);
                if stack.is_some() {
                    e.set_stack_index(stack);
                }
                self.entries.set(v, e);
            }
            v = v + 1;
        }
    }
}

} // verus!
