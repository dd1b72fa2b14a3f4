use vstd::prelude::*;

use crate::allocator::Counter;
use crate::model::{AllocModel, lemma_fresh_inv, lemma_step_preserves_inv, resolve};

verus! {

/// A run of successive draws preserves the invariant, keeps the capacity,
/// and advances the draw counter once per step.
pub proof fn lemma_run_preserves_inv(s: AllocModel, raws: Seq<u64>)
    requires
        s.inv(),
        s.count + raws.len() <= s.capacity,
    ensures
        s.run(raws).inv(),
        s.run(raws).capacity == s.capacity,
        s.run(raws).count == s.count + raws.len(),
    decreases raws.len(),
{
    if raws.len() > 0 {
        lemma_step_preserves_inv(s, raws[0]);
        lemma_run_preserves_inv(s.step(raws[0]), raws.subrange(1, raws.len() as int));
    }
}

/// Permutation law: a fresh allocator of any capacity, after exactly
/// `capacity` draws (whatever random values drive them), has handed out
/// pairwise distinct identifiers forming exactly the set
/// `{0, ..., capacity - 1}`.
pub proof fn lemma_draws_are_a_permutation(capacity: u64, raws: Seq<u64>)
    requires
        raws.len() == capacity,
    ensures
        AllocModel::fresh(capacity).run(raws).drawn.len() == capacity,
        AllocModel::fresh(capacity).run(raws).drawn.no_duplicates(),
        forall|v: u64| AllocModel::fresh(capacity).run(raws).drawn.contains(v) <==> v < capacity,
{
    let s = AllocModel::fresh(capacity);
    lemma_fresh_inv(capacity);
    lemma_run_preserves_inv(s, raws);
    let t = s.run(raws);
    assert(t.window() == 0);
    assert forall|v: u64| t.drawn.contains(v) implies v < capacity by {
        let k = choose|k: int| 0 <= k < t.drawn.len() && t.drawn[k] == v;
        assert(t.drawn[k] < t.capacity);
    }
    assert forall|v: u64| v < capacity implies t.drawn.contains(v) by {
        if !t.drawn.contains(v) {
            assert(t.undrawn_in_window(v));
            let i = choose|i: u64| i < t.window() && resolve(t.overrides, i) == v;
            assert(false);
        }
    }
}

/// Exhaustion law: after `capacity` draws on a fresh allocator the state is
/// exhausted, so by the contract of `Counter::draw_with` the next draw
/// fails and leaves the state unchanged.
pub proof fn lemma_exhausted_after_full_run(capacity: u64, raws: Seq<u64>)
    requires
        raws.len() == capacity,
    ensures
        AllocModel::fresh(capacity).run(raws).count >= AllocModel::fresh(capacity).run(
            raws,
        ).capacity,
{
    lemma_fresh_inv(capacity);
    lemma_run_preserves_inv(AllocModel::fresh(capacity), raws);
}

/// Zero-capacity law: an allocator over an empty range is exhausted from
/// the start, so by the contract of `Counter::draw_with` its very first
/// draw fails.
pub proof fn lemma_zero_capacity_exhausted(s: AllocModel)
    requires
        s.inv(),
        s.capacity == 0,
    ensures
        s.count >= s.capacity,
{
}

/// Determinism law: two allocators in equal states, fed the same sequence
/// of random values, hand out the same sequence of identifiers.
pub proof fn lemma_deterministic_runs(a: Counter, b: Counter, raws: Seq<u64>)
    requires
        a@ == b@,
    ensures
        a@.run(raws).drawn == b@.run(raws).drawn,
{
}

} // verus!
