use vstd::prelude::*;
use rand::RngExt;

verus! {

/// The 64-bit value that the seeded generator yields for the given seed
/// bytes. The generator is documented to be reproducible, so the value is a
/// function of the seed bytes alone.
pub uninterp spec fn seeded_u64_of(seed: Seq<u8>) -> u64;

/// Relies on rand_seeder's `Seeder` (documented as portable and
/// reproducible: it derives its stream from a fixed-key hash of the seed)
/// and on rand_chacha's `ChaCha8Rng` (its stream is a function of the seed
/// it was created from), so the first 64-bit value drawn here depends on
/// the seed bytes alone.
#[verifier::external_body]
pub(crate) fn seeded_random_u64(seed: &[u8]) -> (r: u64)
    ensures
        r == seeded_u64_of(seed@),
{
    let mut rng: rand_chacha::ChaCha8Rng = rand_seeder::Seeder::from(seed).into_rng();
    rng.random::<u64>()
}

} // verus!
