//! Kernel domain values — virtual addresses, memory regions, tasks —
//! with their generators and shrinkers.
//!
//! A generator builds a constraint-satisfying value from raw entropy
//! words, so the drawing of randomness stays with the caller and the
//! construction itself is checked. A shrinker lists strictly smaller
//! valid candidates, nearest first, for minimizing a failing case; the
//! list is finite and never contains the value being shrunk.

use vstd::arithmetic::div_mod::lemma_add_mod_noop;
use vstd::arithmetic::div_mod::lemma_mod_multiples_basic;
use vstd::prelude::*;

verus! {

/// Base of the kernel half of the address space.
pub const KERNEL_BASE: u64 = 0xFFFF_8000_0000_0000;

/// Span of the offsets a generated address may take above the base.
pub const ADDRESS_SPAN: u64 = 0x0000_7FFF_FFFF_F000;

/// Size of one memory page.
pub const PAGE_SIZE: u64 = 0x1000;

/// `x` is a multiple of the page size.
pub open spec fn page_aligned(x: u64) -> bool {
    x % PAGE_SIZE == 0
}

/// Page alignment is the same thing seen through the low-bit mask.
pub proof fn lemma_page_aligned_mask(x: u64)
    ensures
        page_aligned(x) <==> x & 0xFFF == 0,
{
    assert(x % 0x1000 == 0 <==> x & 0xFFF == 0) by (bit_vector);
}

/// A kernel virtual address.
#[derive(Clone, Copy, PartialEq, Eq, Structural, Debug)]
pub struct VirtualAddress(pub u64);

/// The address generated from one raw entropy word: the word reduced
/// modulo the span, rounded down to a page boundary, placed above the
/// base.
pub open spec fn generated_address(raw: u64) -> u64 {
    (KERNEL_BASE + ((raw % ADDRESS_SPAN) as u64 & !0xFFFu64)) as u64
}

/// The next candidate a shrinking address steps to: halve the offset
/// from the base and round back down to a page boundary.
pub open spec fn address_shrink_step(addr: u64) -> u64
    recommends
        KERNEL_BASE <= addr,
{
    (KERNEL_BASE + (addr - KERNEL_BASE) / 2) as u64 & !0xFFFu64
}

/// The step from an address above the base moves strictly down while
/// staying in the kernel range and on the page grid.
pub proof fn lemma_address_shrink_step(addr: u64)
    requires
        KERNEL_BASE < addr,
    ensures
        KERNEL_BASE <= address_shrink_step(addr) < addr,
        page_aligned(address_shrink_step(addr)),
{
    let h = (KERNEL_BASE + (addr - KERNEL_BASE) / 2) as u64;
    assert(h & !0xFFFu64 <= h) by (bit_vector);
    assert((h & !0xFFFu64) % 0x1000 == 0) by (bit_vector);
    assert(h & !0xFFFu64 >= 0xFFFF_8000_0000_0000u64) by (bit_vector)
        requires
            h >= 0xFFFF_8000_0000_0000u64,
    ;
}

/// Every candidate an address shrinks through, nearest first: the step
/// is iterated down to the base, and a candidate equal to the value
/// being shrunk is left out.
pub open spec fn address_shrink_chain(current: u64, addr: u64) -> Seq<VirtualAddress>
    decreases addr,
    via address_shrink_chain_decreases
{
    if addr <= KERNEL_BASE {
        Seq::empty()
    } else {
        let next = address_shrink_step(addr);
        let rest = address_shrink_chain(current, next);
        if next != current {
            seq![VirtualAddress(next)] + rest
        } else {
            rest
        }
    }
}

#[via_fn]
proof fn address_shrink_chain_decreases(current: u64, addr: u64) {
    if addr > KERNEL_BASE {
        lemma_address_shrink_step(addr);
    }
}

impl VirtualAddress {
    /// A generated address lies in the kernel range on a page boundary.
    pub open spec fn wf(self) -> bool {
        &&& KERNEL_BASE <= self.0
        &&& page_aligned(self.0)
    }

    /// Draws an address from one raw entropy word.
    pub fn generate(raw: u64) -> (v: VirtualAddress)
        ensures
            v.0 == generated_address(raw),
            v.wf(),
    {
        let offset = raw % ADDRESS_SPAN;
        let masked = offset & !0xFFFu64;
        proof {
            assert(offset & !0xFFFu64 <= offset && (offset & !0xFFFu64) % 0x1000 == 0)
                by (bit_vector);
        }
        let addr = KERNEL_BASE + masked;
        proof {
            lemma_add_mod_noop(KERNEL_BASE as int, masked as int, PAGE_SIZE as int);
        }
        VirtualAddress(addr)
    }

    /// Lists the shrink candidates for this address: strictly smaller,
    /// still valid, nearest first, ending at the base.
    pub fn shrink(&self) -> (out: Vec<VirtualAddress>)
        ensures
            out@ == address_shrink_chain(self.0, self.0),
            forall|i: int|
                0 <= i < out@.len() ==> (#[trigger] out@[i]).wf() && out@[i].0 < self.0,
    {
        let current = self.0;
        let mut out: Vec<VirtualAddress> = Vec::new();
        if current <= KERNEL_BASE {
            return out;
        }
        let mut addr = current;
        while KERNEL_BASE < addr
            invariant
                addr <= current,
                out@ + address_shrink_chain(current, addr) == address_shrink_chain(
                    current,
                    current,
                ),
                forall|i: int|
                    0 <= i < out@.len() ==> (#[trigger] out@[i]).wf() && out@[i].0 < current,
            decreases addr,
        {
            proof {
                lemma_address_shrink_step(addr);
            }
            let ghost out_before = out@;
            let offset = addr - KERNEL_BASE;
            let half = KERNEL_BASE + offset / 2;
            let next = half & !0xFFFu64;
            if next != current {
                out.push(VirtualAddress(next));
            }
            proof {
                assert(out@ + address_shrink_chain(current, next) =~= out_before
                    + address_shrink_chain(current, addr));
            }
            addr = next;
        }
        proof {
            assert(out@ + address_shrink_chain(current, addr) =~= out@);
        }
        out
    }
}

/// A contiguous memory range: a start address and a size in bytes.
#[derive(Clone, Copy, PartialEq, Eq, Structural, Debug)]
pub struct MemoryRegion {
    pub start: u64,
    pub size: u64,
}

/// The size a shrinking region steps to: halve and round back down to a
/// page multiple.
pub open spec fn size_shrink_step(size: u64) -> u64 {
    (size / 2) as u64 & !0xFFFu64
}

/// The step from a size above one page moves strictly down and stays a
/// page multiple.
pub proof fn lemma_size_shrink_step(size: u64)
    requires
        size > 0,
    ensures
        size_shrink_step(size) < size,
        page_aligned(size_shrink_step(size)),
{
    assert((size / 2) as u64 & !0xFFFu64 <= size / 2 && ((size / 2) as u64 & !0xFFFu64) % 0x1000
        == 0) by (bit_vector);
}

/// Every region a region shrinks through: the size is halved toward one
/// page, the start never moves, and candidates below one page are left
/// out.
pub open spec fn region_shrink_chain(start: u64, size: u64) -> Seq<MemoryRegion>
    decreases size,
    via region_shrink_chain_decreases
{
    if size <= PAGE_SIZE {
        Seq::empty()
    } else {
        let next = size_shrink_step(size);
        let rest = region_shrink_chain(start, next);
        if next >= PAGE_SIZE {
            seq![MemoryRegion { start, size: next }] + rest
        } else {
            rest
        }
    }
}

#[via_fn]
proof fn region_shrink_chain_decreases(start: u64, size: u64) {
    if size > PAGE_SIZE {
        lemma_size_shrink_step(size);
    }
}

impl MemoryRegion {
    /// Structural invariant: page-aligned start, positive page-aligned
    /// size.
    pub open spec fn wf(self) -> bool {
        &&& page_aligned(self.start)
        &&& page_aligned(self.size)
        &&& self.size > 0
    }

    /// The region's end: one past its last byte.
    pub open spec fn end(self) -> int {
        self.start + self.size
    }

    /// Draws a region from two raw entropy words: a generated start
    /// address and a page count in `[1, 1024]`.
    pub fn generate(raw_start: u64, raw_pages: u64) -> (r: MemoryRegion)
        ensures
            r.start == generated_address(raw_start),
            r.size == (raw_pages % 1024 + 1) * PAGE_SIZE,
            r.wf(),
    {
        let start = VirtualAddress::generate(raw_start).0;
        let num_pages = raw_pages % 1024 + 1;
        let size = num_pages * PAGE_SIZE;
        proof {
            lemma_mod_multiples_basic(num_pages as int, PAGE_SIZE as int);
        }
        MemoryRegion { start, size }
    }

    /// Lists the shrink candidates for this region: same start, strictly
    /// smaller page-multiple sizes of at least one page, nearest first.
    pub fn shrink(&self) -> (out: Vec<MemoryRegion>)
        ensures
            out@ == region_shrink_chain(self.start, self.size),
            forall|i: int|
                0 <= i < out@.len() ==> (#[trigger] out@[i]).start == self.start && PAGE_SIZE
                    <= out@[i].size && out@[i].size < self.size && page_aligned(out@[i].size),
    {
        let mut out: Vec<MemoryRegion> = Vec::new();
        let mut size = self.size;
        while size > PAGE_SIZE
            invariant
                size <= self.size,
                out@ + region_shrink_chain(self.start, size) == region_shrink_chain(
                    self.start,
                    self.size,
                ),
                forall|i: int|
                    0 <= i < out@.len() ==> (#[trigger] out@[i]).start == self.start && PAGE_SIZE
                        <= out@[i].size && out@[i].size < self.size && page_aligned(out@[i].size),
            decreases size,
        {
            proof {
                lemma_size_shrink_step(size);
            }
            let ghost out_before = out@;
            let halved = size / 2;
            let next = halved & !0xFFFu64;
            if next >= PAGE_SIZE {
                out.push(MemoryRegion { start: self.start, size: next });
            }
            proof {
                assert(out@ + region_shrink_chain(self.start, next) =~= out_before
                    + region_shrink_chain(self.start, size));
            }
            size = next;
        }
        proof {
            assert(out@ + region_shrink_chain(self.start, size) =~= out@);
        }
        out
    }
}

/// A schedulable task: an identifier, a priority in `[0, 10)`, and the
/// count of time slices the scheduler simulation has granted it.
#[derive(Clone, Copy, PartialEq, Eq, Structural, Debug)]
pub struct Task {
    pub id: u32,
    pub priority: u8,
    pub time_slices: u32,
}

impl Task {
    /// A generated task carries a priority below 10.
    pub open spec fn wf(self) -> bool {
        self.priority < 10
    }

    /// Draws a task from two raw entropy words; the slice counter always
    /// starts at zero.
    pub fn generate(raw_id: u32, raw_priority: u8) -> (t: Task)
        ensures
            t.id == raw_id % 1000,
            t.priority == raw_priority % 10,
            t.time_slices == 0,
            t.wf(),
    {
        Task { id: raw_id % 1000, priority: raw_priority % 10, time_slices: 0 }
    }
}

} // verus!
