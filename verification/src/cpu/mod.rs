//! Processor tables and interrupt controller registers, and the per-CPU
//! state of interrupt masking.
//!
//! Reading RFLAGS and executing `cli`/`sti` is the caller's part: the
//! functions here take what it read and say what to execute.

pub mod apic;
pub mod cpuid;
pub mod flags;
pub mod gdt;
pub mod idt;
pub mod interrupts;
pub mod msr;

use vstd::prelude::*;
use gdt::GlobalDescriptorManager;

verus! {

/// The number of processors the kernel keeps state for.
pub const MAX_CPUS: usize = 8;

/// Whether interrupts are masked, from the value of RFLAGS.
pub fn interrupts_disabled(rflags: u64) -> (r: bool)
    ensures
        r == (rflags & 0x200 == 0),
{
    rflags & flags::IF == 0
}

/// How deep the sections without interrupts are nested, and whether
/// interrupts were enabled when the outermost one began.
pub struct CliState {
    pub depth: nat,
    pub saved_enable: bool,
}

/// Entering a section without interrupts while the interrupt flag is
/// `enabled`: the outermost one saves the flag and masks interrupts (the
/// result says whether to execute `cli`).
pub open spec fn push_cli_spec(s: CliState, enabled: bool) -> (CliState, bool) {
    if s.depth == 0 {
        (CliState { depth: 1, saved_enable: enabled }, true)
    } else {
        (CliState { depth: s.depth + 1, saved_enable: s.saved_enable }, false)
    }
}

/// Leaving a section without interrupts: the outermost one enables
/// interrupts again when they were enabled before it (the result says
/// whether to execute `sti`).
pub open spec fn pop_cli_spec(s: CliState) -> (CliState, bool) {
    (CliState { depth: (s.depth - 1) as nat, saved_enable: s.saved_enable }, s.depth == 1 && s.saved_enable)
}

/// The state a processor keeps.
#[derive(Debug, Clone, Copy)]
pub struct Cpu {
    pub id: usize,
    pub apic_id: u8,
    pub old_interrupt_enable: bool,
    pub n_cli: usize,
    pub process_id: u64,
    pub scheduling: bool,
    pub gdt: GlobalDescriptorManager,
}

impl Cpu {
    pub open spec fn cli_state(self) -> CliState {
        CliState { depth: self.n_cli as nat, saved_enable: self.old_interrupt_enable }
    }

    pub open spec fn apic_id_spec(self) -> u8 {
        self.apic_id
    }

    pub open spec fn gdt_spec(self) -> GlobalDescriptorManager {
        self.gdt
    }

    /// A processor with id 0, no section without interrupts and an empty
    /// descriptor table.
    pub fn empty() -> (r: Self)
        ensures
            r.id == 0,
            r.apic_id_spec() == 0,
            r.cli_state() == (CliState { depth: 0, saved_enable: false }),
            r.process_id == 0,
            !r.scheduling,
            r.gdt_spec().gdt.index == 1,
    {
        Cpu {
            id: 0,
            apic_id: 0,
            old_interrupt_enable: false,
            n_cli: 0,
            process_id: 0,
            scheduling: false,
            gdt: GlobalDescriptorManager::empty(),
        }
    }

    /// Sets the processor's index and the id of its local APIC.
    pub fn init(&mut self, id: usize, apic_id: u8)
        ensures
            final(self).id == id,
            final(self).apic_id_spec() == apic_id,
            final(self).cli_state() == old(self).cli_state(),
            final(self).process_id == old(self).process_id,
            final(self).scheduling == old(self).scheduling,
            final(self).gdt_spec() == old(self).gdt_spec(),
    {
        self.id = id;
        self.apic_id = apic_id;
    }

    pub fn apic_id(&self) -> (r: u8)
        ensures
            r == self.apic_id_spec(),
    {
        self.apic_id
    }

    /// Enters a section without interrupts; `interrupts_enabled` is the
    /// interrupt flag read now. True when the caller must mask interrupts
    /// (`cli`). Within a section the flag must already be clear.
    pub fn push_cli(&mut self, interrupts_enabled: bool) -> (r: bool)
        requires
            old(self).n_cli < usize::MAX,
            old(self).cli_state().depth > 0 ==> !interrupts_enabled,
        ensures
            (final(self).cli_state(), r) == push_cli_spec(old(self).cli_state(), interrupts_enabled),
            final(self).id == old(self).id,
            final(self).apic_id_spec() == old(self).apic_id_spec(),
            final(self).process_id == old(self).process_id,
            final(self).scheduling == old(self).scheduling,
            final(self).gdt_spec() == old(self).gdt_spec(),
    {
        let outermost = self.n_cli == 0;
        if outermost {
            self.old_interrupt_enable = interrupts_enabled;
        }
        self.n_cli = self.n_cli + 1;
        outermost
    }

    /// Leaves a section without interrupts, with the interrupt flag clear.
    /// True when the caller must enable interrupts again (`sti`).
    pub fn pop_cli(&mut self, interrupts_enabled: bool) -> (r: bool)
        requires
            old(self).cli_state().depth > 0,
            !interrupts_enabled,
        ensures
            (final(self).cli_state(), r) == pop_cli_spec(old(self).cli_state()),
            final(self).id == old(self).id,
            final(self).apic_id_spec() == old(self).apic_id_spec(),
            final(self).process_id == old(self).process_id,
            final(self).scheduling == old(self).scheduling,
            final(self).gdt_spec() == old(self).gdt_spec(),
    {
        self.n_cli = self.n_cli - 1;
        self.n_cli == 0 && self.old_interrupt_enable
    }

    /// How deep the sections without interrupts are nested.
    pub fn n_cli(&self) -> (r: usize)
        ensures
            r == self.cli_state().depth,
    {
        self.n_cli
    }

    /// Fills the processor's descriptor table (see
    /// `GlobalDescriptorManager::init_segments`).
    pub fn init_kernel_gdt(&mut self, tss_address: u64, stack_ends: [u64; 7], kernel_stack_end: u64)
        requires
            old(self).gdt_spec().gdt.index == 1,
            forall|i: int| 0 <= i < 7 ==> stack_ends@[i] >= 8,
            kernel_stack_end >= 8,
        ensures
            final(self).gdt_spec().kernel_code_seg.0 == 8,
            final(self).gdt_spec().user_code_seg.0 == 16,
            final(self).gdt_spec().kernel_data_seg.0 == 24,
            final(self).gdt_spec().user_data_seg.0 == 32,
            final(self).gdt_spec().tss_seg.0 == 40,
            forall|i: int| 0 <= i < 7 ==> #[trigger] final(self).gdt_spec().tss.ist@[i] == stack_ends@[i] - 8,
            final(self).gdt_spec().tss.rsp@[0] == kernel_stack_end - 8,
            final(self).cli_state() == old(self).cli_state(),
            final(self).id == old(self).id,
    {
        self.gdt.init_segments(tss_address, stack_ends, kernel_stack_end);
    }

    /// The processor's descriptor table.
    pub fn gdt(&self) -> (r: &GlobalDescriptorManager)
        ensures
            *r == self.gdt_spec(),
    {
        &self.gdt
    }
}

/// A section without interrupts undoes itself: leaving it restores the
/// nesting depth, and enables interrupts again exactly when it was the
/// outermost one and interrupts were enabled on entering it.
pub proof fn lemma_push_pop_cli(s: CliState, enabled: bool)
    requires
        s.depth > 0 ==> !enabled,
    ensures
        pop_cli_spec(push_cli_spec(s, enabled).0).0.depth == s.depth,
        pop_cli_spec(push_cli_spec(s, enabled).0).1 == (s.depth == 0 && enabled),
        s.depth > 0 ==> pop_cli_spec(push_cli_spec(s, enabled).0).0 == s,
{
}

/// `k` more sections entered from `s`, with interrupts masked.
pub open spec fn pushes(s: CliState, k: nat) -> CliState
    decreases k,
{
    if k == 0 {
        s
    } else {
        push_cli_spec(pushes(s, (k - 1) as nat), false).0
    }
}

/// `k` sections left from `s`.
pub open spec fn pops(s: CliState, k: nat) -> CliState
    decreases k,
{
    if k == 0 {
        s
    } else {
        pop_cli_spec(pops(s, (k - 1) as nat)).0
    }
}

proof fn lemma_pushes(s: CliState, k: nat)
    requires
        s.depth > 0,
    ensures
        pushes(s, k) == (CliState { depth: s.depth + k, saved_enable: s.saved_enable }),
    decreases k,
{
    if k > 0 {
        lemma_pushes(s, (k - 1) as nat);
    }
}

proof fn lemma_pops(s: CliState, k: nat)
    requires
        k <= s.depth,
    ensures
        pops(s, k) == (CliState { depth: (s.depth - k) as nat, saved_enable: s.saved_enable }),
    decreases k,
{
    if k > 0 {
        lemma_pops(s, (k - 1) as nat);
    }
}

/// Nested sections: entering one with the interrupt flag `enabled`, then
/// `k` more inside it, and leaving them all, leaves interrupts masked
/// until the last (outermost) one is left, which enables them exactly when
/// `enabled`.
pub proof fn lemma_nested_cli(enabled: bool, k: nat)
    ensures
        ({
            let inner = pushes(push_cli_spec(CliState { depth: 0, saved_enable: false }, enabled).0, k);
            &&& inner.depth == k + 1
            &&& forall|j: nat| j < k ==> !(#[trigger] pop_cli_spec(pops(inner, j))).1
            &&& pop_cli_spec(pops(inner, k)).1 == enabled
            &&& pop_cli_spec(pops(inner, k)).0.depth == 0
        }),
{
    let first = push_cli_spec(CliState { depth: 0, saved_enable: false }, enabled).0;
    lemma_pushes(first, k);
    let inner = pushes(first, k);
    assert forall|j: nat| j < k implies !(#[trigger] pop_cli_spec(pops(inner, j))).1 by {
        lemma_pops(inner, j);
    }
    lemma_pops(inner, k);
}

} // verus!
