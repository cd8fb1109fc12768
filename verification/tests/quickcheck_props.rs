//! The invariant predicates driven by quickcheck: randomized values come
//! from the library's own generators, and verdicts map onto quickcheck's
//! pass/fail/discard.

use kernel_harness::domain::{MemoryRegion, Task, VirtualAddress};
use kernel_harness::props::{
    prop_address_translation_reversible, prop_ipc_message_order, prop_no_memory_overlap,
    prop_page_alignment, prop_refcount_prevents_uaf, prop_scheduler_fairness, Verdict,
};
use quickcheck::{quickcheck, Arbitrary, Gen, TestResult};

fn verdict_to_result(v: Verdict) -> TestResult {
    match v {
        Verdict::Pass => TestResult::passed(),
        Verdict::Fail => TestResult::failed(),
        Verdict::Discard => TestResult::discard(),
    }
}

#[derive(Clone, Debug)]
struct GenAddress(VirtualAddress);

impl Arbitrary for GenAddress {
    fn arbitrary(g: &mut Gen) -> Self {
        GenAddress(VirtualAddress::generate(u64::arbitrary(g)))
    }

    fn shrink(&self) -> Box<dyn Iterator<Item = Self>> {
        Box::new(self.0.shrink().into_iter().map(GenAddress))
    }
}

#[derive(Clone, Debug)]
struct GenRegion(MemoryRegion);

impl Arbitrary for GenRegion {
    fn arbitrary(g: &mut Gen) -> Self {
        GenRegion(MemoryRegion::generate(u64::arbitrary(g), u64::arbitrary(g)))
    }

    fn shrink(&self) -> Box<dyn Iterator<Item = Self>> {
        Box::new(self.0.shrink().into_iter().map(GenRegion))
    }
}

#[derive(Clone, Debug)]
struct GenTask(Task);

impl Arbitrary for GenTask {
    fn arbitrary(g: &mut Gen) -> Self {
        GenTask(Task::generate(u32::arbitrary(g), u8::arbitrary(g)))
    }
}

fn translation_reversible(vaddr: GenAddress) -> bool {
    prop_address_translation_reversible(vaddr.0)
}

#[test]
fn test_address_translation() {
    quickcheck(translation_reversible as fn(GenAddress) -> bool);
}

fn page_alignment(region: GenRegion) -> bool {
    prop_page_alignment(region.0)
}

#[test]
fn test_page_alignment() {
    quickcheck(page_alignment as fn(GenRegion) -> bool);
}

fn any_pair_overlaps(regions: &[MemoryRegion]) -> bool {
    for i in 0..regions.len() {
        for j in (i + 1)..regions.len() {
            let a = &regions[i];
            let b = &regions[j];
            let a_end = a.start as u128 + a.size as u128;
            let b_end = b.start as u128 + b.size as u128;
            if (a.start as u128) < b_end && (b.start as u128) < a_end {
                return true;
            }
        }
    }
    false
}

fn no_memory_overlap_checked(regions: Vec<GenRegion>) -> TestResult {
    // Generated sequences may legitimately contain overlapping (even
    // identical) regions, which the predicate must report as failing;
    // this drives the predicate against an independently computed
    // expectation.
    let regions: Vec<MemoryRegion> = regions.into_iter().map(|r| r.0).collect();
    let expected = if regions.len() < 2 {
        Verdict::Discard
    } else if any_pair_overlaps(&regions) {
        Verdict::Fail
    } else {
        Verdict::Pass
    };
    TestResult::from_bool(prop_no_memory_overlap(regions) == expected)
}

#[test]
fn test_no_overlap() {
    quickcheck(no_memory_overlap_checked as fn(Vec<GenRegion>) -> TestResult);
}

fn refcount_prevents_uaf(initial_refs: u8) -> TestResult {
    verdict_to_result(prop_refcount_prevents_uaf(initial_refs))
}

#[test]
fn test_refcount() {
    quickcheck(refcount_prevents_uaf as fn(u8) -> TestResult);
}

fn scheduler_fairness(tasks: Vec<GenTask>) -> TestResult {
    // generated tasks carry no time slices, so the simulation cannot
    // overflow their counters
    let tasks: Vec<Task> = tasks.into_iter().map(|t| t.0).collect();
    if tasks.iter().any(|t| t.time_slices > u32::MAX - 10) {
        return TestResult::discard();
    }
    verdict_to_result(prop_scheduler_fairness(tasks))
}

#[test]
fn test_scheduler() {
    quickcheck(scheduler_fairness as fn(Vec<GenTask>) -> TestResult);
}

fn ipc_message_order(messages: Vec<u64>) -> TestResult {
    verdict_to_result(prop_ipc_message_order(messages))
}

#[test]
fn test_ipc_order() {
    quickcheck(ipc_message_order as fn(Vec<u64>) -> TestResult);
}
