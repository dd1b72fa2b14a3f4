use vstd::prelude::*;
use std::collections::HashMap;

use crate::errors::Error;
use crate::model::{AllocModel, lemma_fresh_inv, lemma_step_preserves_inv, resolve};
use crate::rng::{seeded_random_u64, seeded_u64_of};

verus! {

broadcast use vstd::std_specs::hash::group_hash_axioms;

/// Allocator of unique random identifiers from `[0, max_supply_token)`.
///
/// `token_matrix` is the sparse override map of the incremental
/// Fisher-Yates shuffle: an entry at a live window slot records which
/// identifier that slot currently represents; absent slots represent their
/// own index. `drawn` is the ghost history of identifiers handed out.
pub struct Counter {
    max_supply_token: u64,
    token_count: u64,
    token_matrix: HashMap<u64, u64>,
    drawn: Ghost<Seq<u64>>,
}

impl View for Counter {
    type V = AllocModel;

    closed spec fn view(&self) -> AllocModel {
        AllocModel {
            capacity: self.max_supply_token,
            count: self.token_count,
            overrides: self.token_matrix@,
            drawn: self.drawn@,
        }
    }
}

impl Counter {
    /// The allocator is well formed: its model satisfies the state invariant.
    pub open spec fn wf(&self) -> bool {
        self@.inv()
    }

    /// A fresh allocator over `[0, max_supply_token)`: nothing drawn yet,
    /// every slot still representing its own index.
    pub fn new(max_supply_token: u64) -> (c: Counter)
        ensures
            c.wf(),
            c@ == AllocModel::fresh(max_supply_token),
    {
        let c = Counter {
            max_supply_token,
            token_count: 0,
            token_matrix: HashMap::new(),
            drawn: Ghost(Seq::empty()),
        };
        proof {
            assert(c@ =~= AllocModel::fresh(max_supply_token));
            lemma_fresh_inv(max_supply_token);
        }
        c
    }

    /// One-time construction: the host persistence layer owns the "does a
    /// prior instance exist" question and passes the answer in as
    /// `state_exists`; construction fails if and only if one does.
    pub fn init(state_exists: bool, max_supply_token: u64) -> (r: Result<Counter, Error>)
        ensures
            state_exists <==> r == Err::<Counter, Error>(Error::AlreadyInitialized),
            !state_exists ==> {
                &&& r is Ok
                &&& r->Ok_0.wf()
                &&& r->Ok_0@ == AllocModel::fresh(max_supply_token)
            },
    {
        if state_exists {
            Err(Error::AlreadyInitialized)
        } else {
            Ok(Counter::new(max_supply_token))
        }
    }

    /// Draw the next identifier, driven by the uniform random value `raw`.
    ///
    /// Succeeds if and only if identifiers are left; on success the result
    /// and the new state are exactly one `step` of the model, and on failure
    /// the state is unchanged.
    pub fn draw_with(&mut self, raw: u64) -> (r: Result<u64, Error>)
        requires
            old(self).wf(),
        ensures
            final(self).wf(),
            old(self)@.count < old(self)@.capacity ==> {
                &&& r == Ok::<u64, Error>(old(self)@.drawn_id(raw))
                &&& final(self)@ == old(self)@.step(raw)
            },
            old(self)@.count >= old(self)@.capacity ==> {
                &&& r == Err::<u64, Error>(Error::Exhausted)
                &&& final(self)@ == old(self)@
            },
    {
        let max_index = self.max_supply_token - self.token_count;
        if max_index == 0 {
            return Err(Error::Exhausted);
        }
        proof {
            lemma_step_preserves_inv(old(self)@, raw);
        }
        let rand_index = raw % max_index;
        let rand_id: u64 = match self.token_matrix.get(&rand_index) {
            Some(v) => *v,
            None => rand_index,
        };
        let prev_index = max_index - 1;
        let prev_id: u64 = match self.token_matrix.get(&prev_index) {
            Some(v) => *v,
            None => prev_index,
        };
        self.token_matrix.insert(rand_index, prev_id);
        self.token_count = self.token_count + 1;
        self.drawn = Ghost(self.drawn@.push(rand_id));
        proof {
            let o = old(self)@;
            assert(rand_index == o.pick(raw));
            assert(rand_id == o.drawn_id(raw));
            assert(prev_id == resolve(o.overrides, (o.window() - 1) as u64));
            assert(self@ =~= o.step(raw));
        }
        Ok(rand_id)
    }

    /// Total number of distinct identifiers, fixed at construction.
    pub fn max_supply_token(&self) -> (r: u64)
        ensures
            r == self@.capacity,
    {
        self.max_supply_token
    }

    /// Number of successful draws performed so far.
    pub fn token_count(&self) -> (r: u64)
        ensures
            r == self@.count,
    {
        self.token_count
    }

    /// Draw the next identifier, seeded by the opaque entropy bytes the
    /// hosting environment supplies for this call: derive one uniform
    /// 64-bit value from the seed, then perform one draw step with it.
    pub fn get_random_token(&mut self, seed: &[u8]) -> (r: Result<u64, Error>)
        requires
            old(self).wf(),
        ensures
            final(self).wf(),
            old(self)@.count < old(self)@.capacity ==> {
                &&& r == Ok::<u64, Error>(old(self)@.drawn_id(seeded_u64_of(seed@)))
                &&& final(self)@ == old(self)@.step(seeded_u64_of(seed@))
            },
            old(self)@.count >= old(self)@.capacity ==> {
                &&& r == Err::<u64, Error>(Error::Exhausted)
                &&& final(self)@ == old(self)@
            },
    {
        let raw = seeded_random_u64(seed);
        self.draw_with(raw)
    }
}

} // verus!
