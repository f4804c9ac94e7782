//! The Intel e1000 network card: its descriptors, descriptor rings, and
//! the values it reads and writes. The memory-mapped registers and DMA
//! memory are handled by the caller.

use vstd::prelude::*;
use super::MacAddress;

verus! {

/// Receive descriptor status: the hardware is done with it.
pub const RECV_STATUS_DD: u8 = 1;
/// Receive descriptor status: last descriptor of a packet.
pub const RECV_STATUS_EOP: u8 = 2;
/// Transmit command: end of packet.
pub const CMD_EOP: u8 = 1;
/// Transmit command: insert the frame check sequence.
pub const CMD_INS_FCS: u8 = 2;
/// Transmit command: report status.
pub const CMD_REPORT_STATUS: u8 = 8;
/// Transmit descriptor status: the hardware is done with it.
pub const TRANSMIT_STATUS_DD: u8 = 1;

/// A descriptor of a ring shared with the card.
pub trait Descriptor: Sized {
    /// The buffer address.
    spec fn spec_address(&self) -> u64;

    /// The card marked the descriptor as done.
    spec fn spec_is_hw_done(&self) -> bool;

    /// The descriptor with its status cleared and its other fields kept.
    spec fn spec_reset(&self) -> Self;

    /// Hands the descriptor back to the card: clears its status.
    fn reset(&mut self)
        requires
            old(self).spec_address() != 0,
        ensures
            !final(self).spec_is_hw_done(),
            final(self).spec_address() == old(self).spec_address(),
            *final(self) == old(self).spec_reset(),
    ;

    /// Whether the card marked the descriptor as done.
    fn is_hw_done(&self) -> (r: bool)
        ensures
            r == self.spec_is_hw_done(),
    ;
}

/// A receive descriptor.
#[derive(Debug, Clone, Copy)]
pub struct ReceiveDescriptor {
    pub address: u64,
    pub len: u16,
    pub checksum: u16,
    pub status: u8,
    pub errors: u8,
    pub special: u16,
}

impl ReceiveDescriptor {
    /// A descriptor for the buffer at `address`, with a clear status.
    pub fn init(address: u64) -> (r: Self)
        ensures
            r.address == address,
            r.status == 0,
            r.len == 0,
    {
        ReceiveDescriptor { address, len: 0, checksum: 0, status: 0, errors: 0, special: 0 }
    }

    pub fn is_end_of_packet(&self) -> (r: bool)
        ensures
            r == (self.status & 2 != 0),
    {
        self.status & RECV_STATUS_EOP != 0
    }
}

impl Descriptor for ReceiveDescriptor {
    open spec fn spec_address(&self) -> u64 {
        self.address
    }

    open spec fn spec_is_hw_done(&self) -> bool {
        self.status & 1 != 0
    }

    open spec fn spec_reset(&self) -> Self {
        Self { status: 0, ..*self }
    }

    fn reset(&mut self) {
        self.status = 0;
        proof {
            crate::bits::lemma_constants();
        }
    }

    fn is_hw_done(&self) -> (r: bool) {
        self.status & RECV_STATUS_DD != 0
    }
}

/// A transmit descriptor.
#[derive(Debug, Clone, Copy)]
pub struct TransmitDescriptor {
    pub address: u64,
    pub len: u16,
    pub checksum_offset: u8,
    pub cmd: u8,
    pub status: u8,
    pub checksum_start: u8,
    pub special: u16,
}

impl TransmitDescriptor {
    /// A descriptor for the buffer at `address`, with a clear status.
    pub fn init(address: u64) -> (r: Self)
        ensures
            r.address == address,
            r.status == 0,
            r.len == 0,
            r.cmd == 0,
    {
        TransmitDescriptor {
            address,
            len: 0,
            checksum_offset: 0,
            cmd: 0,
            status: 0,
            checksum_start: 0,
            special: 0,
        }
    }

    /// Sets the length of the data to send.
    pub fn set_len(&mut self, len: usize)
        requires
            len <= 4096,
            old(self).address != 0,
        ensures
            final(self).len == len,
            final(self).address == old(self).address,
            final(self).cmd == old(self).cmd,
            final(self).status == old(self).status,
    {
        self.len = len as u16;
    }

    /// Marks the descriptor as a whole packet to send, with the frame
    /// check sequence added and its status reported.
    pub fn prepare_for_transmit(&mut self)
        requires
            old(self).len <= 4096,
            old(self).address != 0,
        ensures
            final(self).cmd == 0x0b,
            final(self).len == old(self).len,
            final(self).address == old(self).address,
            final(self).status == old(self).status,
    {
        self.cmd = CMD_EOP | CMD_REPORT_STATUS | CMD_INS_FCS;
        proof {
            crate::bits::lemma_constants();
        }
    }
}

impl Descriptor for TransmitDescriptor {
    open spec fn spec_address(&self) -> u64 {
        self.address
    }

    open spec fn spec_is_hw_done(&self) -> bool {
        self.status & 1 != 0
    }

    open spec fn spec_reset(&self) -> Self {
        Self { status: 0, ..*self }
    }

    fn reset(&mut self) {
        self.status = 0;
        proof {
            crate::bits::lemma_constants();
        }
    }

    fn is_hw_done(&self) -> (r: bool) {
        self.status & TRANSMIT_STATUS_DD != 0
    }
}

/// A ring of `N` descriptors shared with the card: the software owns the
/// descriptors from `head` up to `tail`, the card the others.
pub struct DmaRing<T: Descriptor, const N: usize> {
    ring: Vec<T>,
    physical_address: u64,
    head: u16,
    tail: u16,
}

/// The index after `i` in a ring of `n`.
pub open spec fn ring_next(i: int, n: int) -> int {
    if i + 1 >= n {
        0
    } else {
        i + 1
    }
}

impl<T: Descriptor, const N: usize> DmaRing<T, N> {
    /// The descriptors that can still be handed to the card.
    pub closed spec fn spec_free(&self) -> int {
        if self.head > self.tail {
            self.head - self.tail - 1
        } else {
            self.head + N - self.tail - 1
        }
    }

    pub closed spec fn wf(&self) -> bool {
        &&& N % 8 == 0
        &&& 0 < N
        &&& N * 16 < 4096
        &&& self.ring@.len() == N
        &&& self.head < N
        &&& self.tail < N
        &&& forall|i: int| 0 <= i < N ==> (#[trigger] self.ring@[i]).spec_address() != 0
    }

    pub closed spec fn spec_head(&self) -> u16 {
        self.head
    }

    pub closed spec fn spec_tail(&self) -> u16 {
        self.tail
    }

    pub closed spec fn spec_physical_address(&self) -> u64 {
        self.physical_address
    }

    pub closed spec fn descriptors(&self) -> Seq<T> {
        self.ring@
    }

    /// A ring of the given descriptors, at the given physical address.
    pub fn new(ring: Vec<T>, physical_address: u64) -> (r: Self)
        requires
            N % 8 == 0,
            0 < N,
            N * 16 < 4096,
            ring@.len() == N,
            forall|i: int| 0 <= i < N ==> (#[trigger] ring@[i]).spec_address() != 0,
        ensures
            r.wf(),
            r.spec_head() == 0,
            r.spec_tail() == 0,
            r.descriptors() == ring@,
    {
        DmaRing { ring, physical_address, head: 0, tail: 0 }
    }

    /// The number of descriptors the card has to fill, given its head.
    pub fn queue_len(&self, hw_head: u16) -> (r: usize)
        requires
            self.wf(),
        ensures
            r == ((hw_head as int - self.spec_tail() as int - 1) % 0x1_0000) % (N as int),
    {
        let v = hw_head.wrapping_sub(self.tail).wrapping_sub(1);
        v as usize % N
    }

    /// The size of the ring in bytes, for descriptors of `size` bytes.
    pub fn bytes_len(&self, size: usize) -> (r: usize)
        requires
            self.wf(),
            size <= 16,
        ensures
            r == N * size,
    {
        proof {
            assert(N * size <= N * 16) by (nonlinear_arith)
                requires
                    size <= 16,
            ;
        }
        N * size
    }

    pub fn physical_ptr(&self) -> (r: u64)
        ensures
            r == self.spec_physical_address(),
    {
        self.physical_address
    }

    pub fn head(&self) -> (r: u16)
        ensures
            r == self.spec_head(),
    {
        self.head
    }

    pub fn tail(&self) -> (r: u16)
        ensures
            r == self.spec_tail(),
    {
        self.tail
    }

    /// The descriptor at `index`.
    pub fn get(&self, index: usize) -> (r: &T)
        requires
            self.wf(),
            index < N,
        ensures
            *r == self.descriptors()[index as int],
    {
        &self.ring[index]
    }

    /// Takes the descriptor at the head when the card is done with it and
    /// has moved past it; gives its index.
    pub fn pop_next(&mut self, hw_head: u16) -> (r: Option<usize>)
        requires
            old(self).wf(),
        ensures
            final(self).wf(),
            final(self).descriptors() == old(self).descriptors(),
            final(self).spec_tail() == old(self).spec_tail(),
            hw_head == old(self).spec_head() ==> r is None && final(self).spec_head() == old(self).spec_head(),
            hw_head != old(self).spec_head() && old(self).descriptors()[old(self).spec_head() as int].spec_is_hw_done()
                ==> r == Some(old(self).spec_head() as usize) && final(self).spec_head() == ring_next(
                old(self).spec_head() as int,
                N as int,
            ),
            hw_head != old(self).spec_head() && !old(self).descriptors()[old(self).spec_head() as int].spec_is_hw_done()
                ==> r is None && final(self).spec_head() == old(self).spec_head(),
    {
        if hw_head == self.head {
            None
        } else if self.ring[self.head as usize].is_hw_done() {
            let res = self.head as usize;
            self.head = if res + 1 >= N {
                0
            } else {
                (res + 1) as u16
            };
            Some(res)
        } else {
            None
        }
    }

    /// Hands the descriptor at the tail to the card, unless the ring is
    /// full; gives its index. The descriptor's status is cleared.
    pub fn allocate_next_for_hw(&mut self) -> (r: Option<usize>)
        requires
            old(self).wf(),
        ensures
            final(self).wf(),
            final(self).spec_head() == old(self).spec_head(),
            ring_next(old(self).spec_tail() as int, N as int) == old(self).spec_head() ==> r is None && *final(self)
                == *old(self),
            ring_next(old(self).spec_tail() as int, N as int) != old(self).spec_head() ==> r == Some(
                old(self).spec_tail() as usize,
            ) && final(self).spec_tail() == ring_next(old(self).spec_tail() as int, N as int)
                && final(self).spec_free() == old(self).spec_free() - 1
                && !final(self).descriptors()[old(self).spec_tail() as int].spec_is_hw_done()
                && final(self).descriptors()[old(self).spec_tail() as int] == old(self).descriptors()[old(
                self,
            ).spec_tail() as int].spec_reset()
                && forall|i: int| 0 <= i < N && i != old(self).spec_tail() ==> #[trigger] final(self).descriptors()[i]
                == old(self).descriptors()[i],
    {
        let t0 = self.tail as usize;
        let next: u16 = if t0 + 1 >= N {
            0
        } else {
            (t0 + 1) as u16
        };
        if next == self.head {
            return None;
        }
        let t = self.tail as usize;
        let mut d = self.ring.remove(t);
        assert(d.spec_address() != 0) by {
            assert(old(self).ring@[t as int].spec_address() != 0);
        }
        d.reset();
        self.ring.insert(t, d);
        self.tail = next;
        proof {
            assert forall|i: int| 0 <= i < N implies (#[trigger] self.ring@[i]).spec_address() != 0 by {
                if i != t {
                    assert(self.ring@[i] == old(self).ring@[i]);
                }
            }
        }
        Some(t)
    }

    /// Hands every descriptor it can to the card.
    pub fn allocate_all_for_hw(&mut self)
        requires
            old(self).wf(),
        ensures
            final(self).wf(),
            ring_next(final(self).spec_tail() as int, N as int) == final(self).spec_head(),
            final(self).spec_head() == old(self).spec_head(),
    {
        loop
            invariant
                self.wf(),
                self.spec_head() == old(self).spec_head(),
                self.spec_free() >= 0,
            ensures
                self.wf(),
                self.spec_head() == old(self).spec_head(),
                ring_next(self.spec_tail() as int, N as int) == self.spec_head(),
            decreases self.spec_free(),
        {
            let r = self.allocate_next_for_hw();
            if r.is_none() {
                break;
            }
        }
    }
}

/// The EEPROM read request for a word: its address in bits 8 and up, and
/// the start bit.
pub fn eeprom_read_request(offset: u16) -> (r: u32)
    requires
        offset <= 0xff,
    ensures
        r == offset as u32 * 256 + 1,
{
    let r = ((offset as u32) << 8u32) | 1;
    proof {
        crate::bits::lemma_u16(offset);
    }
    r
}

/// The word of a finished EEPROM read: bits 16 to 31 of the register.
pub fn eeprom_read_result(eerd: u32) -> (r: u16)
    ensures
        r == eerd / 0x1_0000,
{
    proof {
        crate::bits::lemma_u32(eerd);
    }
    (eerd >> 16u32) as u16
}

/// Whether an EEPROM read is finished.
pub fn eeprom_read_done(eerd: u32) -> (r: bool)
    ensures
        r == (eerd & 0x10 != 0),
{
    eerd & 0x10 != 0
}

/// The EEPROM size in words, by the control register: 256 when the size
/// bit is set, else 64.
pub fn eeprom_size(eecd: u32) -> (r: u16)
    ensures
        r == if eecd & 0x200 != 0 { 256u16 } else { 64u16 },
{
    if eecd & 0x200 != 0 {
        256
    } else {
        64
    }
}

/// The hardware address from the first three EEPROM words, low byte first.
pub fn read_mac_address(low: u16, mid: u16, high: u16) -> (r: MacAddress)
    ensures
        r.0@ == seq![
            (low % 256) as u8,
            (low / 256) as u8,
            (mid % 256) as u8,
            (mid / 256) as u8,
            (high % 256) as u8,
            (high / 256) as u8,
        ],
{
    proof {
        crate::bits::lemma_u16(low);
        crate::bits::lemma_u16(mid);
        crate::bits::lemma_u16(high);
    }
    let r = MacAddress(
        [
            (low & 0xff) as u8,
            (low >> 8u16) as u8,
            (mid & 0xff) as u8,
            (mid >> 8u16) as u8,
            (high & 0xff) as u8,
            (high >> 8u16) as u8,
        ],
    );
    assert(r.0@ =~= seq![
        (low % 256) as u8,
        (low / 256) as u8,
        (mid % 256) as u8,
        (mid / 256) as u8,
        (high % 256) as u8,
        (high / 256) as u8,
    ]);
    r
}

} // verus!
