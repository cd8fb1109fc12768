//! Invariant predicates over generated kernel domain values.
//!
//! Each predicate consumes one or more generated values and returns a
//! [`Verdict`]: the property holds, the property is violated, or the
//! values lie outside the property's domain and the case must be drawn
//! again. A discard never counts as a pass or a fail.

use vstd::prelude::*;

use crate::domain::lemma_page_aligned_mask;
use crate::domain::MemoryRegion;
use crate::domain::Task;
use crate::domain::VirtualAddress;

verus! {

/// Verdict of one invariant predicate evaluation.
#[derive(Clone, Copy, PartialEq, Eq, Structural, Debug)]
pub enum Verdict {
    /// The property holds of the given values.
    Pass,
    /// The property is violated; the run should stop and report a
    /// shrunk counterexample.
    Fail,
    /// The values lie outside the property's domain; they count
    /// neither way, and the driver draws a replacement.
    Discard,
}

/// Two regions overlap when each one starts below the other's end.
pub open spec fn regions_overlap(a: MemoryRegion, b: MemoryRegion) -> bool {
    a.start < b.end() && b.start < a.end()
}

/// Some pair of distinct positions in `regions` holds overlapping
/// regions.
pub open spec fn has_overlapping_pair(regions: Seq<MemoryRegion>) -> bool {
    exists|i: int, j: int| 0 <= i < j < regions.len() && regions_overlap(regions[i], regions[j])
}

fn overlaps(a: &MemoryRegion, b: &MemoryRegion) -> (r: bool)
    ensures
        r == regions_overlap(*a, *b),
{
    let a_end = a.start as u128 + a.size as u128;
    let b_end = b.start as u128 + b.size as u128;
    (a.start as u128) < b_end && (b.start as u128) < a_end
}

/// Checks that no two of the given regions overlap: fewer than two
/// regions are outside the property's domain, any overlapping pair
/// fails, and otherwise the set passes.
pub fn prop_no_memory_overlap(regions: Vec<MemoryRegion>) -> (v: Verdict)
    ensures
        v == (if regions@.len() < 2 {
            Verdict::Discard
        } else if has_overlapping_pair(regions@) {
            Verdict::Fail
        } else {
            Verdict::Pass
        }),
{
    if regions.len() < 2 {
        return Verdict::Discard;
    }
    let n = regions.len();
    let mut i: usize = 0;
    while i < n
        invariant
            n == regions@.len(),
            i <= n,
            forall|a: int, b: int|
                0 <= a < b < n && a < i ==> !regions_overlap(regions@[a], regions@[b]),
        decreases n - i,
    {
        let mut j: usize = i + 1;
        while j < n
            invariant
                n == regions@.len(),
                i < j <= n,
                forall|a: int, b: int|
                    0 <= a < b < n && a < i ==> !regions_overlap(regions@[a], regions@[b]),
                forall|b: int| i < b < j ==> !regions_overlap(regions@[i as int], regions@[b]),
            decreases n - j,
        {
            if overlaps(&regions[i], &regions[j]) {
                proof {
                    assert(0 <= (i as int) && (i as int) < (j as int) && (j as int)
                        < regions@.len() && regions_overlap(regions@[i as int], regions@[j as int]));
                }
                return Verdict::Fail;
            }
            j += 1;
        }
        i += 1;
    }
    Verdict::Pass
}

/// The mock virtual-to-physical translation: split off the page offset,
/// exclusive-or the page number with a fixed pattern, reattach the
/// offset.
pub open spec fn encode_address(v: u64) -> u64 {
    (((v >> 12) ^ 0xAAAA_AAAA_AAAA) << 12) | (v & 0xFFF)
}

/// The inverse translation; the pattern is its own inverse, so the
/// computation is the same one.
pub open spec fn decode_address(p: u64) -> u64 {
    (((p >> 12) ^ 0xAAAA_AAAA_AAAA) << 12) | (p & 0xFFF)
}

/// Round trip of the mock translation: decoding an encoded address
/// reproduces it exactly — for every 64-bit value, generated or not.
pub proof fn lemma_translation_reversible(v: u64)
    ensures
        decode_address(encode_address(v)) == v,
{
    assert(decode_address(encode_address(v)) == v) by (bit_vector);
}

/// Applies the mock translation forward and back and reports whether
/// the round trip reproduced the address; it always does.
pub fn prop_address_translation_reversible(vaddr: VirtualAddress) -> (ok: bool)
    ensures
        ok == (decode_address(encode_address(vaddr.0)) == vaddr.0),
        ok,
{
    let page_offset = vaddr.0 & 0xFFF;
    let vpn = vaddr.0 >> 12;
    let ppn = vpn ^ 0xAAAA_AAAA_AAAA;
    let paddr = (ppn << 12) | page_offset;
    let reverse_ppn = paddr >> 12;
    let reverse_vpn = reverse_ppn ^ 0xAAAA_AAAA_AAAA;
    let reverse_vaddr = (reverse_vpn << 12) | page_offset;
    proof {
        let v = vaddr.0;
        lemma_translation_reversible(v);
        assert((((((v >> 12) ^ 0xAAAA_AAAA_AAAAu64) << 12) | (v & 0xFFF)) & 0xFFF) == v & 0xFFF)
            by (bit_vector);
    }
    reverse_vaddr == vaddr.0
}

/// Checks the page-layout invariant of one region: page-aligned start,
/// page-aligned size, positive size.
pub fn prop_page_alignment(region: MemoryRegion) -> (ok: bool)
    ensures
        ok == region.wf(),
{
    let start_aligned = region.start & 0xFFF == 0;
    let size_aligned = region.size & 0xFFF == 0;
    let size_valid = region.size > 0;
    proof {
        lemma_page_aligned_mask(region.start);
        lemma_page_aligned_mask(region.size);
    }
    start_aligned && size_aligned && size_valid
}

/// Simulates releasing an object's references one at a time. Counts of
/// zero or above 100 are outside the model's domain; any other count
/// passes — both reaching zero and stopping with references left are
/// allowed outcomes. The model checks deallocation timing only; access
/// after the count reaches zero is not modeled here.
pub fn prop_refcount_prevents_uaf(initial_refs: u8) -> (v: Verdict)
    ensures
        v == (if initial_refs == 0 || initial_refs > 100 {
            Verdict::Discard
        } else {
            Verdict::Pass
        }),
{
    if initial_refs == 0 || initial_refs > 100 {
        return Verdict::Discard;
    }
    let mut refcount: i32 = initial_refs as i32;
    let mut released: u8 = 0;
    while released < initial_refs
        invariant
            initial_refs != 0,
            initial_refs <= 100,
            released <= initial_refs,
            refcount == initial_refs - released,
        decreases initial_refs - released,
    {
        refcount = refcount - 1;
        released = released + 1;
        if refcount == 0 {
            // The object is deallocated here; no further release can
            // reach it.
            return Verdict::Pass;
        }
    }
    Verdict::Pass
}

/// Runs the round-robin scheduler simulation — ten full rounds, one
/// time slice per tick — and checks that no task starved. Fewer than
/// two tasks are discarded; under pure round robin every task
/// accumulates ten slices, so the check always passes. The priority
/// field plays no part in this model.
pub fn prop_scheduler_fairness(tasks: Vec<Task>) -> (v: Verdict)
    requires
        forall|i: int| 0 <= i < tasks@.len() ==> (#[trigger] tasks@[i]).time_slices + 10
            <= u32::MAX,
    ensures
        v == (if tasks@.len() < 2 {
            Verdict::Discard
        } else {
            Verdict::Pass
        }),
{
    if tasks.len() < 2 {
        return Verdict::Discard;
    }
    let mut tasks = tasks;
    let ghost tasks0 = tasks@;
    let n = tasks.len();
    let mut round: usize = 0;
    while round < 10
        invariant
            tasks@.len() == n,
            tasks0.len() == n,
            round <= 10,
            forall|i: int| 0 <= i < n ==> (#[trigger] tasks0[i]).time_slices + 10 <= u32::MAX,
            forall|i: int| 0 <= i < n ==> (#[trigger] tasks@[i]).time_slices == tasks0[i].time_slices
                + round,
        decreases 10 - round,
    {
        let mut idx: usize = 0;
        while idx < n
            invariant
                tasks@.len() == n,
                tasks0.len() == n,
                idx <= n,
                round < 10,
                forall|i: int| 0 <= i < n ==> (#[trigger] tasks0[i]).time_slices + 10 <= u32::MAX,
                forall|i: int| 0 <= i < idx ==> (#[trigger] tasks@[i]).time_slices
                    == tasks0[i].time_slices + round + 1,
                forall|i: int| idx <= i < n ==> (#[trigger] tasks@[i]).time_slices
                    == tasks0[i].time_slices + round,
            decreases n - idx,
        {
            let t = tasks[idx];
            tasks[idx] = Task { id: t.id, priority: t.priority, time_slices: t.time_slices + 1 };
            idx += 1;
        }
        round += 1;
    }
    let mut all_ran = true;
    let mut k: usize = 0;
    while k < n
        invariant
            tasks@.len() == n,
            k <= n,
            all_ran,
            forall|i: int| 0 <= i < n ==> (#[trigger] tasks@[i]).time_slices >= 10,
        decreases n - k,
    {
        if tasks[k].time_slices == 0 {
            all_ran = false;
        }
        k += 1;
    }
    if all_ran {
        Verdict::Pass
    } else {
        Verdict::Fail
    }
}

fn copy_messages(messages: &Vec<u64>) -> (out: Vec<u64>)
    ensures
        out@ == messages@,
{
    let mut out: Vec<u64> = Vec::new();
    let mut i: usize = 0;
    while i < messages.len()
        invariant
            i <= messages@.len(),
            out@ == messages@.subrange(0, i as int),
        decreases messages@.len() - i,
    {
        out.push(messages[i]);
        proof {
            assert(out@ =~= messages@.subrange(0, i + 1));
        }
        i += 1;
    }
    proof {
        assert(out@ =~= messages@);
    }
    out
}

fn vecs_equal(a: &Vec<u64>, b: &Vec<u64>) -> (r: bool)
    ensures
        r == (a@ == b@),
{
    if a.len() != b.len() {
        return false;
    }
    let mut i: usize = 0;
    while i < a.len()
        invariant
            a@.len() == b@.len(),
            i <= a@.len(),
            forall|k: int| 0 <= k < i ==> a@[k] == b@[k],
        decreases a@.len() - i,
    {
        if a[i] != b[i] {
            return false;
        }
        i += 1;
    }
    proof {
        assert(a@ =~= b@);
    }
    true
}

/// Replays a message sequence through a FIFO queue: every message is
/// dequeued in exactly the order it was enqueued, so the replay hands
/// the sequence back unchanged.
pub fn fifo_replay(messages: &Vec<u64>) -> (received: Vec<u64>)
    ensures
        received@ == messages@,
{
    let mut send_queue = copy_messages(messages);
    let mut received: Vec<u64> = Vec::new();
    while send_queue.len() > 0
        invariant
            received@ + send_queue@ == messages@,
        decreases send_queue@.len(),
    {
        let msg = send_queue.remove(0);
        received.push(msg);
        proof {
            assert(received@ + send_queue@ =~= messages@);
        }
    }
    proof {
        assert(received@ =~= messages@);
    }
    received
}

/// Checks FIFO ordering of an IPC channel: replaying the messages
/// through the queue must reproduce them in order. Fewer than two
/// messages are discarded; the replay preserves order, so any longer
/// sequence passes.
pub fn prop_ipc_message_order(messages: Vec<u64>) -> (v: Verdict)
    ensures
        v == (if messages@.len() < 2 {
            Verdict::Discard
        } else {
            Verdict::Pass
        }),
{
    if messages.len() < 2 {
        return Verdict::Discard;
    }
    let received = fifo_replay(&messages);
    let in_order = vecs_equal(&received, &messages);
    if in_order {
        Verdict::Pass
    } else {
        Verdict::Fail
    }
}

} // verus!
