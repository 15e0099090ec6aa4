//! A command ring for compute work, in the shape of a Vulkan-style submission queue.
use vstd::prelude::*;

verus! {

/// Entries in the ring; each command takes two.
pub const RING_ENTRIES: usize = 1024;
/// The compute opcode, in the top byte of a command's first word.
pub const OPCODE_COMPUTE: u32 = 0x0100_0000;
/// Offset of the doorbell register from the device's MMIO base.
pub const DOORBELL_OFFSET: u64 = 0x40;

pub struct GpuCommandRing {
    mmio_base: u64,
    ring_buffer: Vec<u32>,
    head: usize,
    tail: usize,
}

/// The outcome of a submission: the ring had no room, or the command went in and the
/// doorbell at this address is to be rung.
#[derive(Debug, Clone, Copy, PartialEq, Eq, Structural)]
pub enum SubmitOutcome {
    Full,
    Submitted { doorbell: u64 },
}

/// Where the tail goes after one command.
pub open spec fn next_tail(tail: int) -> int {
    (tail + 2) % (RING_ENTRIES as int)
}

impl GpuCommandRing {
    pub closed spec fn ring(&self) -> Seq<u32> {
        self.ring_buffer@
    }

    pub closed spec fn head(&self) -> int {
        self.head as int
    }

    pub closed spec fn tail(&self) -> int {
        self.tail as int
    }

    pub closed spec fn mmio_base(&self) -> u64 {
        self.mmio_base
    }

    pub open spec fn wf(&self) -> bool {
        &&& self.ring().len() == RING_ENTRIES
        &&& 0 <= self.head() < RING_ENTRIES
        &&& 0 <= self.tail() < RING_ENTRIES
        &&& self.tail() % 2 == 0
    }

    /// An empty ring of 1024 zeroed entries for the device at `mmio_base`.
    pub fn new(mmio_base: u64) -> (r: Self)
        ensures
            r.wf(),
            r.mmio_base() == mmio_base,
            r.head() == 0,
            r.tail() == 0,
            r.ring() == Seq::new(RING_ENTRIES as nat, |i: int| 0u32),
    {
        let ring_buffer = vec![0u32; RING_ENTRIES];
        assert(ring_buffer@ =~= Seq::new(RING_ENTRIES as nat, |i: int| 0u32));
        GpuCommandRing { mmio_base, ring_buffer, head: 0, tail: 0 }
    }

    /// Queues a compute command: the opcode with the shader id, then the low 32 bits of the
    /// data pointer, at the tail; refused when the tail would run into the head.
    pub fn submit_compute_command(&mut self, shader_id: u32, data_ptr: u64) -> (r: SubmitOutcome)
        requires
            old(self).wf(),
            next_tail(old(self).tail()) != old(self).head() ==> old(self).mmio_base() + DOORBELL_OFFSET
                <= u64::MAX,
        ensures
            final(self).wf(),
            final(self).head() == old(self).head(),
            final(self).mmio_base() == old(self).mmio_base(),
            next_tail(old(self).tail()) == old(self).head() ==> r == SubmitOutcome::Full && final(self).ring()
                == old(self).ring() && final(self).tail() == old(self).tail(),
            next_tail(old(self).tail()) != old(self).head() ==> {
                &&& r == SubmitOutcome::Submitted { doorbell: (old(self).mmio_base() + DOORBELL_OFFSET) as u64 }
                &&& final(self).tail() == next_tail(old(self).tail())
                &&& final(self).ring() == old(self).ring().update(old(self).tail(), OPCODE_COMPUTE | shader_id).update(
                    old(self).tail() + 1,
                    (data_ptr % 0x1_0000_0000) as u32,
                )
            },
    {
        let current_tail = self.tail;
        let next = (current_tail + 2) % RING_ENTRIES;
        if next == self.head {
            return SubmitOutcome::Full;
        }
        self.ring_buffer.set(current_tail, OPCODE_COMPUTE | shader_id);
        let low = (data_ptr & 0xFFFF_FFFF) as u32;
        assert(low == data_ptr % 0x1_0000_0000) by (bit_vector)
            requires
                low == (data_ptr & 0xFFFF_FFFF) as u32,
        ;
        self.ring_buffer.set((current_tail + 1) % RING_ENTRIES, low);
        self.tail = next;
        SubmitOutcome::Submitted { doorbell: self.mmio_base + DOORBELL_OFFSET }
    }
}

/// Each submission that is not refused moves the tail by two entries, around the ring; the
/// ring holds at most 511 commands before the tail reaches the head again.
pub proof fn lemma_tail_advances(tail: int, head: int)
    requires
        0 <= tail < RING_ENTRIES,
        tail % 2 == 0,
    ensures
        0 <= next_tail(tail) < RING_ENTRIES,
        next_tail(tail) % 2 == 0,
        next_tail(tail) != tail,
{
}

/// Where the tail stands after `k` accepted submissions into a ring whose tail started at
/// `start`.
pub open spec fn tail_after(start: int, k: nat) -> int {
    (start + 2 * k) % (RING_ENTRIES as int)
}

/// The ring's capacity: from an empty ring (tail at the head, an even entry, as `new` leaves
/// it), the first 511 submissions are accepted, each moving the tail on by two, and the 512th
/// is refused because its tail would meet the head.
pub proof fn lemma_ring_capacity(head: int, k: nat)
    requires
        0 <= head < RING_ENTRIES,
        head % 2 == 0,
        k <= 511,
    ensures
        tail_after(head, 0) == head,
        k < 511 ==> next_tail(tail_after(head, k)) != head && next_tail(tail_after(head, k))
            == tail_after(head, k + 1),
        k == 511 ==> next_tail(tail_after(head, k)) == head,
{
    let t = head + 2 * k;
    vstd::arithmetic::div_mod::lemma_add_mod_noop(t, 2, RING_ENTRIES as int);
    vstd::arithmetic::div_mod::lemma_small_mod(2, RING_ENTRIES as nat);
    assert(tail_after(head, 0) == head);
}

} // verus!
