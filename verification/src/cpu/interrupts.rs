//! Handing out interrupt vectors to drivers, and the two special vectors
//! for the scheduler and for system calls.

use vstd::prelude::*;
use super::idt::{gate_for, InterruptDescriptorTable, InterruptDescriptorTableEntry};

verus! {

/// Stacks of the task state segment that handlers run on.
pub const FAULTS_STACK: u8 = 0;
pub const DOUBLE_FAULT_STACK: u8 = 1;
pub const SYSCALL_STACK: u8 = 2;

/// The first vector after the exceptions.
pub const USER_INTERRUPTS_START: u8 = 0x20;
/// How many vectors can be handed out.
pub const MAX_USER_INTERRUPTS: u8 = 0xd0;
/// The last vector (0xFF), for the scheduler.
pub const SPECIAL_SCHEDULER_INTERRUPT: u8 = 0xdf;
/// The second last vector (0xFE), for system calls.
pub const SPECIAL_SYSCALL_INTERRUPT: u8 = 0xde;

/// The descriptor table and how many vectors were handed out.
pub struct Interrupts {
    pub idt: InterruptDescriptorTable,
    pub last_used_user_interrupt: u16,
}

impl Interrupts {
    pub open spec fn wf(&self) -> bool {
        &&& self.idt.entries@.len() == 256
        &&& self.last_used_user_interrupt <= 0xd0
    }

    pub fn empty() -> (r: Self)
        ensures
            r.wf(),
            r.last_used_user_interrupt == 0,
            forall|v: int| 0 <= v < 256 ==> #[trigger] r.idt.entries@[v] == InterruptDescriptorTableEntry::empty_spec(),
    {
        Interrupts { idt: InterruptDescriptorTable::empty(), last_used_user_interrupt: 0 }
    }

    /// The next free slot after the exceptions.
    pub fn get_next_interrupt(&mut self) -> (r: u8)
        requires
            old(self).wf(),
            old(self).last_used_user_interrupt < 0xd0,
        ensures
            final(self).wf(),
            r == old(self).last_used_user_interrupt,
            final(self).last_used_user_interrupt == old(self).last_used_user_interrupt + 1,
            final(self).idt == old(self).idt,
    {
        let interrupt = self.last_used_user_interrupt;
        self.last_used_user_interrupt = self.last_used_user_interrupt + 1;
        interrupt as u8
    }

    /// Puts the handler at `handler_addr` in the next free slot and returns
    /// its vector.
    pub fn allocate_basic_user_interrupt(&mut self, handler_addr: u64, cs: u16) -> (r: u8)
        requires
            old(self).wf(),
            old(self).last_used_user_interrupt < 0xd0,
        ensures
            final(self).wf(),
            r == old(self).last_used_user_interrupt + 0x20,
            final(self).last_used_user_interrupt == old(self).last_used_user_interrupt + 1,
            gate_for(final(self).idt.entries@[r as int], handler_addr, cs, None),
            forall|v: int| 0 <= v < 256 && v != r ==> #[trigger] final(self).idt.entries@[v] == old(
                self,
            ).idt.entries@[v],
    {
        let interrupt = self.get_next_interrupt();
        let vector = interrupt + USER_INTERRUPTS_START;
        let mut e = self.idt.entries[vector as usize];
        e.set_handler(handler_addr, cs);
        self.idt.entries.set(vector as usize, e);
        vector
    }

    /// Puts the entry stub of the next free vector in its slot and returns
    /// the vector; `stub_addr` is the stub of that vector, which hands the
    /// saved state to the handler registered for it.
    pub fn allocate_user_interrupt_all_saved(&mut self, stub_addr: u64, cs: u16) -> (r: u8)
        requires
            old(self).wf(),
            old(self).last_used_user_interrupt < 0xd0,
        ensures
            final(self).wf(),
            r == old(self).last_used_user_interrupt + 0x20,
            final(self).last_used_user_interrupt == old(self).last_used_user_interrupt + 1,
            gate_for(final(self).idt.entries@[r as int], stub_addr, cs, None),
            forall|v: int| 0 <= v < 256 && v != r ==> #[trigger] final(self).idt.entries@[v] == old(
                self,
            ).idt.entries@[v],
    {
        self.allocate_basic_user_interrupt(stub_addr, cs)
    }

    /// Points the last vector (0xFF) at the scheduler's entry stub.
    pub fn create_scheduler_interrupt(&mut self, stub_addr: u64, cs: u16)
        requires
            old(self).wf(),
        ensures
            final(self).wf(),
            final(self).last_used_user_interrupt == old(self).last_used_user_interrupt,
            gate_for(final(self).idt.entries@[0xFF], stub_addr, cs, None),
            forall|v: int| 0 <= v < 0xFF ==> #[trigger] final(self).idt.entries@[v] == old(self).idt.entries@[v],
    {
        let vector = (SPECIAL_SCHEDULER_INTERRUPT + USER_INTERRUPTS_START) as usize;
        let mut e = self.idt.entries[vector];
        e.set_handler(stub_addr, cs);
        self.idt.entries.set(vector, e);
    }

    /// Points vector 0xFE at the system call entry stub: callable from user
    /// mode, with interrupts disabled, on the system call stack.
    pub fn create_syscall_interrupt(&mut self, stub_addr: u64, cs: u16)
        requires
            old(self).wf(),
        ensures
            final(self).wf(),
            final(self).last_used_user_interrupt == old(self).last_used_user_interrupt,
            final(self).idt.entries@[0xFE].handler_address() == stub_addr,
            final(self).idt.entries@[0xFE].selector == cs,
            final(self).idt.entries@[0xFE].flags == 0xee,
            final(self).idt.entries@[0xFE].ist == 3,
            forall|v: int| 0 <= v < 256 && v != 0xFE ==> #[trigger] final(self).idt.entries@[v] == old(
                self,
            ).idt.entries@[v],
    {
        let vector = (SPECIAL_SYSCALL_INTERRUPT + USER_INTERRUPTS_START) as usize;
        let mut e = self.idt.entries[vector];
        e.set_handler(stub_addr, cs);
        e.set_privilege_level(3);
        e.set_disable_interrupts(true);
        e.set_stack_index(Some(SYSCALL_STACK));
        proof {
            crate::bits::lemma_constants();
        }
        self.idt.entries.set(vector, e);
    }
}

} // verus!
