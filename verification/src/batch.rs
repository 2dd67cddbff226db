//! Batches of allocations: the linearized view of a concurrent dispatch.
//!
//! During a dispatch batch the remaining-unit counter is the only shared
//! mutable word, and it is updated exclusively by atomic compare-and-swap.
//! A compare-and-swap that succeeds saw the counter value left by the
//! previous successful update, so every concurrent execution of `allocate`
//! calls linearizes into a sequence of counter transitions in some order,
//! each transition exactly the one `Arena::allocate` performs. The spec
//! functions here fold a sequence of requests over the counter in that
//! way; the lemmas state the allocator's batch-wide guarantees over every
//! such sequence — hence over every interleaving.

use vstd::prelude::*;

use crate::arena::{AllocError, Arena, spec_can_claim, spec_claim};
use crate::layout::{Layout, is_power_of_two, lemma_align_down_properties, spec_units_of_bytes};

verus! {

/// All requests in the sequence are well-formed.
pub open spec fn requests_wf(reqs: Seq<Layout>) -> bool {
    forall|i: int| 0 <= i < reqs.len() ==> (#[trigger] reqs[i]).wf()
}

/// The counter value after the first `n` requests of `reqs` have run, in
/// order, against a counter that started at `cap`: each request that fits
/// (and has a supported alignment) claims its range, the rest leave the
/// counter alone.
pub open spec fn spec_counter_after(cap: nat, reqs: Seq<Layout>, n: int) -> nat
    decreases n,
{
    if n <= 0 {
        cap
    } else {
        let prev = spec_counter_after(cap, reqs, n - 1);
        if spec_can_claim(prev, reqs[n - 1]) {
            spec_claim(prev, reqs[n - 1])
        } else {
            prev
        }
    }
}

/// Whether request `i` of the batch succeeds.
pub open spec fn spec_step_succeeds(cap: nat, reqs: Seq<Layout>, i: int) -> bool {
    spec_can_claim(spec_counter_after(cap, reqs, i), reqs[i])
}

/// The unit offset claimed by request `i`, assuming it succeeds: the
/// counter value it leaves behind.
pub open spec fn spec_claim_offset(cap: nat, reqs: Seq<Layout>, i: int) -> nat {
    spec_counter_after(cap, reqs, i + 1)
}

/// The result of request `i` of the batch: the claimed offset, or the
/// error determined by the counter value the request observed.
pub open spec fn spec_batch_result(cap: nat, reqs: Seq<Layout>, i: int) -> Result<
    u32,
    AllocError,
> {
    let prev = spec_counter_after(cap, reqs, i);
    if !reqs[i].align_supported() {
        Err(AllocError::UnsupportedAlignment)
    } else if reqs[i].spec_size_units() > prev {
        Err(AllocError::OutOfMemory)
    } else {
        Ok(spec_claim(prev, reqs[i]) as u32)
    }
}

/// A well-formed request has at least one alignment unit.
proof fn lemma_align_units_at_least_one(l: Layout)
    requires
        l.wf(),
    ensures
        l.spec_align_units() >= 1,
{
    assert(l.align_bytes >= 1) by {
        if l.align_bytes == 0 {
            assert(!is_power_of_two(0));
        }
    }
    assert(spec_units_of_bytes(l.align_bytes as nat) >= 1);
}

/// One successful claim moves the counter down by at least the request's
/// units, to an offset aligned to the request.
pub proof fn lemma_claim_step(rem: nat, l: Layout)
    requires
        l.wf(),
        spec_can_claim(rem, l),
    ensures
        spec_claim(rem, l) + l.spec_size_units() <= rem,
        spec_claim(rem, l) % l.spec_align_units() == 0,
{
    lemma_align_units_at_least_one(l);
    lemma_align_down_properties((rem - l.spec_size_units()) as nat, l.spec_align_units());
}

/// The counter is non-increasing across a batch: later points of the
/// linearized order see a counter no larger than earlier ones, whatever
/// the requests and whichever of them succeed.
pub proof fn lemma_counter_monotonic(cap: nat, reqs: Seq<Layout>, i: int, j: int)
    requires
        requests_wf(reqs),
        0 <= i <= j <= reqs.len(),
    ensures
        spec_counter_after(cap, reqs, j) <= spec_counter_after(cap, reqs, i),
    decreases j - i,
{
    if i < j {
        lemma_counter_monotonic(cap, reqs, i, j - 1);
        let prev = spec_counter_after(cap, reqs, j - 1);
        if spec_can_claim(prev, reqs[j - 1]) {
            lemma_claim_step(prev, reqs[j - 1]);
        }
    }
}

/// Two distinct successful claims of one batch never overlap: the later
/// one, in linearized order, ends at or below the earlier one's offset.
pub proof fn lemma_claims_disjoint(cap: nat, reqs: Seq<Layout>, i: int, j: int)
    requires
        requests_wf(reqs),
        0 <= i < j < reqs.len(),
        spec_step_succeeds(cap, reqs, i),
        spec_step_succeeds(cap, reqs, j),
    ensures
        spec_claim_offset(cap, reqs, j) + reqs[j].spec_size_units() <= spec_claim_offset(
            cap,
            reqs,
            i,
        ),
{
    lemma_claim_step(spec_counter_after(cap, reqs, j), reqs[j]);
    lemma_counter_monotonic(cap, reqs, i + 1, j);
}

/// Non-overlap, stated symmetrically: for any two distinct successful
/// claims, one's unit range ends at or before the other's begins.
pub proof fn lemma_claims_disjoint_sym(cap: nat, reqs: Seq<Layout>, i: int, j: int)
    requires
        requests_wf(reqs),
        0 <= i < reqs.len(),
        0 <= j < reqs.len(),
        i != j,
        spec_step_succeeds(cap, reqs, i),
        spec_step_succeeds(cap, reqs, j),
    ensures
        spec_claim_offset(cap, reqs, i) + reqs[i].spec_size_units() <= spec_claim_offset(
            cap,
            reqs,
            j,
        ) || spec_claim_offset(cap, reqs, j) + reqs[j].spec_size_units() <= spec_claim_offset(
            cap,
            reqs,
            i,
        ),
{
    if i < j {
        lemma_claims_disjoint(cap, reqs, i, j);
    } else {
        lemma_claims_disjoint(cap, reqs, j, i);
    }
}

/// Runs a batch of requests against the arena in the given order and
/// collects each call's result. Any concurrent execution of the same
/// requests linearizes into such an order.
pub fn run_batch(arena: &mut Arena, requests: &Vec<Layout>) -> (results: Vec<
    Result<u32, AllocError>,
>)
    requires
        old(arena).wf(),
        requests_wf(requests@),
    ensures
        final(arena).wf(),
        final(arena).spec_capacity_units() == old(arena).spec_capacity_units(),
        final(arena).spec_storage() == old(arena).spec_storage(),
        final(arena).spec_remaining() == spec_counter_after(
            old(arena).spec_remaining(),
            requests@,
            requests@.len() as int,
        ),
        results@.len() == requests@.len(),
        forall|i: int|
            0 <= i < requests@.len() ==> #[trigger] results@[i] == spec_batch_result(
                old(arena).spec_remaining(),
                requests@,
                i,
            ),
{
    let ghost cap = old(arena).spec_remaining();
    let mut results: Vec<Result<u32, AllocError>> = Vec::new();
    let mut k: usize = 0;
    while k < requests.len()
        invariant
            k <= requests@.len(),
            requests_wf(requests@),
            arena.wf(),
            arena.spec_capacity_units() == old(arena).spec_capacity_units(),
            arena.spec_storage() == old(arena).spec_storage(),
            arena.spec_remaining() == spec_counter_after(cap, requests@, k as int),
            cap == old(arena).spec_remaining(),
            results@.len() == k as nat,
            forall|i: int|
                0 <= i < k as int ==> #[trigger] results@[i] == spec_batch_result(
                    cap,
                    requests@,
                    i,
                ),
        decreases requests@.len() - k,
    {
        let layout = requests[k];
        let outcome = arena.allocate(layout);
        results.push(outcome);
        k = k + 1;
    }
    results
}

} // verus!
