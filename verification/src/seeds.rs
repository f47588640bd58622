//! Seed derivation: the ordered sequence of seeds a harness runs.
//!
//! Iteration `i` always runs with `base_seed + i`, so a run is reproduced
//! exactly by pinning the base seed, and raising the iteration count only
//! extends the sequence without disturbing earlier seeds.

use vstd::prelude::*;

verus! {

/// Base seed used when no override is supplied, so that unseeded runs are
/// reproducible run-to-run rather than randomized by process entropy.
pub const DEFAULT_BASE_SEED: u64 = 0;

/// The seed for iteration `i` is `base_seed + i`.
pub open spec fn seed_seq(base_seed: u64, iterations: u64) -> Seq<u64> {
    Seq::new(iterations as nat, |i: int| (base_seed + i) as u64)
}

/// The base seed actually used: the override when one is present, else
/// [`DEFAULT_BASE_SEED`].
pub open spec fn resolved_base_seed(override_seed: Option<u64>) -> u64 {
    match override_seed {
        Some(b) => b,
        None => DEFAULT_BASE_SEED,
    }
}

/// Resolves the externally sourced base-seed override, once, before any seed
/// is derived; the result is fixed for the whole expansion.
pub fn resolve_base_seed(override_seed: Option<u64>) -> (r: u64)
    ensures
        r == resolved_base_seed(override_seed),
{
    match override_seed {
        Some(b) => b,
        None => DEFAULT_BASE_SEED,
    }
}

/// Derives the ordered seed sequence: one seed per iteration, `seed[i] ==
/// base_seed + i`.
pub fn derive_seeds(base_seed: u64, iterations: u64) -> (r: Vec<u64>)
    requires
        iterations <= usize::MAX,
        base_seed + iterations - 1 <= u64::MAX,
    ensures
        r@ == seed_seq(base_seed, iterations),
        r@.len() == iterations,
        forall|i: int| 0 <= i < iterations ==> r@[i] == base_seed + i,
{
    let mut seeds: Vec<u64> = Vec::new();
    let mut i: u64 = 0;
    while i < iterations
        invariant
            i <= iterations,
            iterations <= usize::MAX,
            base_seed + iterations - 1 <= u64::MAX,
            seeds@.len() == i,
            forall|j: int| 0 <= j < i ==> seeds@[j] == base_seed + j,
        decreases iterations - i,
    {
        seeds.push(base_seed + i);
        i = i + 1;
    }
    proof {
        assert(seeds@ =~= seed_seq(base_seed, iterations));
    }
    seeds
}

/// Raising the iteration count only extends the seed sequence: the first
/// `n1` seeds of a longer derivation are exactly the shorter derivation, so
/// a failure observed at some index reproduces at that same index.
pub proof fn lemma_seed_prefix(base_seed: u64, n1: u64, n2: u64)
    requires
        n1 <= n2,
    ensures
        seed_seq(base_seed, n2).take(n1 as int) == seed_seq(base_seed, n1),
{
    assert(seed_seq(base_seed, n2).take(n1 as int) =~= seed_seq(base_seed, n1));
}

/// No two iterations of one run collide: distinct indices get distinct seeds.
pub proof fn lemma_seeds_distinct(base_seed: u64, iterations: u64, i: int, j: int)
    requires
        base_seed + iterations - 1 <= u64::MAX,
        0 <= i < iterations,
        0 <= j < iterations,
        i != j,
    ensures
        seed_seq(base_seed, iterations)[i] != seed_seq(base_seed, iterations)[j],
{
}

} // verus!
