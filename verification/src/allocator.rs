//! Decoder for the allocator-operation fuzz surface, with its in-fuzz
//! bookkeeping of live allocations.
//!
//! Input layout: repeating 9-byte records `[op: u8][size: u32 LE]
//! [align: u32 LE]`; trailing bytes that cannot fill a record are
//! discarded. `op mod 3` selects allocate, deallocate, or reallocate.
//! Deallocate and reallocate address an existing record through the raw
//! size field taken modulo the live count, so every raw index is
//! defined; both are no-ops on an empty live set.

use vstd::prelude::*;

use crate::bytes::le32_at;
use crate::bytes::read_le32;

verus! {

/// Bound that allocate and reallocate sizes are clamped under (sizes are
/// reduced modulo this value; a zero result makes the record a no-op).
pub const MAX_ALLOC_SIZE: usize = 0x10_0000;

/// Largest alignment an allocate request may carry.
pub const MAX_ALIGN: usize = 0x1000;

/// Alignment used when a request's alignment field is unusable.
pub const DEFAULT_ALIGN: usize = 8;

/// One live allocation in the bookkeeper: an opaque handle standing for
/// the allocator's answer, and the size the record was made or last
/// resized with.
#[derive(Clone, Copy, PartialEq, Eq, Structural, Debug)]
pub struct AllocationRecord {
    pub handle: usize,
    pub size: usize,
}

/// `a` has exactly one bit set.
pub open spec fn is_pow2(a: usize) -> bool {
    a != 0 && a & ((a - 1) as usize) == 0
}

fn check_pow2(a: usize) -> (r: bool)
    ensures
        r == is_pow2(a),
{
    a != 0 && a & (a - 1) == 0
}

/// The alignment actually used for an allocate request: the field
/// itself when it is a power of two, capped at [`MAX_ALIGN`]; otherwise
/// [`DEFAULT_ALIGN`].
pub open spec fn clamped_align(align: usize) -> usize {
    if align == 0 || !is_pow2(align) {
        DEFAULT_ALIGN
    } else if align > MAX_ALIGN {
        MAX_ALIGN
    } else {
        align
    }
}

/// The live sequence after one 9-byte record is applied: allocate
/// appends a record, deallocate removes the selected record, reallocate
/// replaces the selected record's size in place. The raw `size` field
/// doubles as the index source for the latter two.
pub open spec fn alloc_step(
    live: Seq<AllocationRecord>,
    op: u8,
    size: usize,
    align: usize,
) -> Seq<AllocationRecord> {
    if op % 3 == 0 {
        let s = size % MAX_ALLOC_SIZE;
        if s == 0 {
            live
        } else {
            let a = clamped_align(align);
            live.push(AllocationRecord { handle: s | a, size: s })
        }
    } else if op % 3 == 1 {
        if live.len() == 0 {
            live
        } else {
            live.remove(size as int % live.len() as int)
        }
    } else {
        if live.len() == 0 {
            live
        } else {
            let idx = size as int % live.len() as int;
            let new_size = align % MAX_ALLOC_SIZE;
            if new_size == 0 {
                live
            } else {
                live.update(
                    idx,
                    AllocationRecord { handle: new_size | live[idx].size, size: new_size },
                )
            }
        }
    }
}

/// The live sequence left after every whole record of `data` from
/// offset `i` on has been applied to `live`.
pub open spec fn alloc_replay(data: Seq<u8>, i: int, live: Seq<AllocationRecord>) -> Seq<
    AllocationRecord,
>
    recommends
        0 <= i,
    decreases data.len() - i,
{
    if i < 0 || i + 9 > data.len() {
        live
    } else {
        alloc_replay(
            data,
            i + 9,
            alloc_step(live, data[i], le32_at(data, i + 1) as usize, le32_at(data, i + 5) as usize),
        )
    }
}

/// Fuzz entry for the allocator surface: applies every whole 9-byte
/// record of `data` to an initially empty live set and returns the
/// records still live when the pass ends (the pass conceptually releases
/// them; none outlives the call). Total on all inputs; trailing partial
/// records are discarded, not an error.
pub fn fuzz_allocator(data: &[u8]) -> (live: Vec<AllocationRecord>)
    ensures
        live@ == alloc_replay(data@, 0, Seq::empty()),
{
    let mut live: Vec<AllocationRecord> = Vec::new();
    let mut offset: usize = 0;
    while offset < data.len() && data.len() - offset >= 9
        invariant
            offset <= data@.len(),
            alloc_replay(data@, 0, Seq::empty()) == alloc_replay(data@, offset as int, live@),
        decreases data@.len() - offset,
    {
        let op = data[offset];
        let size = read_le32(data, offset + 1) as usize;
        let align = read_le32(data, offset + 5) as usize;
        let ghost live_before = live@;

        if op % 3 == 0 {
            // Allocate: clamp the size, coerce the alignment, append.
            let s = size % MAX_ALLOC_SIZE;
            if s != 0 {
                let a = if !check_pow2(align) {
                    DEFAULT_ALIGN
                } else if align > MAX_ALIGN {
                    MAX_ALIGN
                } else {
                    align
                };
                live.push(AllocationRecord { handle: s | a, size: s });
            }
        } else if op % 3 == 1 {
            // Deallocate: remove the selected record, if any is live.
            if live.len() > 0 {
                let idx = size % live.len();
                live.remove(idx);
            }
        } else {
            // Reallocate: replace the selected record's size in place.
            if live.len() > 0 {
                let idx = size % live.len();
                let new_size = align % MAX_ALLOC_SIZE;
                if new_size != 0 {
                    let old_size = live[idx].size;
                    live[idx] = AllocationRecord { handle: new_size | old_size, size: new_size };
                }
            }
        }

        proof {
            assert(live@ =~= alloc_step(live_before, op, size, align));
        }
        offset = offset + 9;
    }
    proof {
        assert(alloc_replay(data@, offset as int, live@) == live@);
    }
    live
}

} // verus!
