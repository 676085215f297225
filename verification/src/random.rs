//! Seeded pseudo-random draws, done by the `rand` crate.

use vstd::prelude::*;

verus! {

/// The first number below `bound` that `rand`'s standard generator, seeded
/// with `seed`, draws from the range that starts at zero.
pub uninterp spec fn seeded_draw(seed: Seq<u8>, bound: i32) -> i32;

/// Draws a number from `0..bound` with a generator seeded by `seed`.
///
/// Trusted: the generator is `rand::rngs::StdRng::from_seed(seed)` and the
/// number its first `gen_range(0..bound)`, which lies in that range. An empty
/// range, on which `gen_range` fails, is excluded.
#[verifier::external_body]
pub(crate) fn draw_below(seed: [u8; 32], bound: i32) -> (r: i32)
    requires
        bound > 0,
    ensures
        r == seeded_draw(seed@, bound),
        0 <= r < bound,
{
    let mut rng: rand::rngs::StdRng = rand::SeedableRng::from_seed(seed);
    rand::Rng::gen_range(&mut rng, 0..bound)
}

} // verus!
