//! The seeded random source from which chaotic entries draw their surges.

use proptest::strategy::{Strategy, ValueTree};
use proptest::test_runner::{Config, RngAlgorithm, TestRng, TestRunner};
use vstd::prelude::*;

verus! {

/// The length of a seed, in bytes.
pub const SEED_LEN: usize = 32;

/// `proptest::test_runner::TestRunner`, which holds the random generator.
/// It is carried as it is; nothing is read from it.
#[verifier::external_type_specification]
#[verifier::external_body]
pub struct ExTestRunner(TestRunner);

/// Builds a `proptest` runner around `TestRng::from_seed` with the ChaCha
/// generator, through `TestRunner::new_with_rng`. `from_seed` panics on a
/// seed that is not 32 bytes long, which `requires` rules out. Nothing is
/// stated of the runner: it is only handed on to `draw_below`.
#[verifier::external_body]
fn seeded_runner(seed: &Vec<u8>) -> (runner: TestRunner)
    requires
        seed@.len() == SEED_LEN,
{
    TestRunner::new_with_rng(Config::default(), TestRng::from_seed(RngAlgorithm::ChaCha, seed))
}

/// Draws one value from the `proptest` strategy `0..bound`, which samples
/// its range uniformly, and takes the drawn value with `ValueTree::current`.
/// The strategy panics on an empty range, which `requires` rules out; for a
/// range that is not empty it always yields a tree, whose value lies in the
/// range. Which value comes depends on the runner's generator, so no more is
/// stated.
#[verifier::external_body]
fn draw_below(runner: &mut TestRunner, bound: u64) -> (drawn: Option<u64>)
    requires
        bound > 0,
    ensures
        drawn is Some,
        drawn matches Some(v) ==> v < bound,
{
    (0..bound).new_tree(runner).ok().map(|tree| tree.current())
}

/// A random source fixed by its seed.
pub struct Sampler {
    runner: TestRunner,
}

impl Sampler {
    /// The source that `seed` fixes; `None` unless the seed is 32 bytes long.
    pub fn new(seed: &Vec<u8>) -> (r: Option<Sampler>)
        ensures
            r is Some <==> seed@.len() == SEED_LEN,
    {
        if seed.len() == SEED_LEN {
            Some(Sampler { runner: seeded_runner(seed) })
        } else {
            None
        }
    }

    /// One surge from `[0, bound)`; `None` when that domain is empty.
    pub fn draw(&mut self, bound: u64) -> (r: Option<u64>)
        ensures
            r is Some <==> bound > 0,
            r matches Some(v) ==> v < bound,
    {
        if bound == 0 {
            None
        } else {
            draw_below(&mut self.runner, bound)
        }
    }

    /// `count` surges from `[0, bound)`, in the order drawn; none when the
    /// domain is empty.
    pub fn samples(&mut self, count: usize, bound: u64) -> (v: Vec<u64>)
        ensures
            v@.len() == (if bound == 0 { 0 } else { count as int }),
            forall|i: int| 0 <= i < v@.len() ==> #[trigger] v@[i] < bound,
    {
        let mut v: Vec<u64> = Vec::new();
        if bound == 0 {
            return v;
        }
        let mut i: usize = 0;
        while i < count
            invariant
                i <= count,
                bound > 0,
                v@.len() == i,
                forall|k: int| 0 <= k < v@.len() ==> #[trigger] v@[k] < bound,
            decreases count - i,
        {
            let drawn = draw_below(&mut self.runner, bound);
            v.push(drawn.unwrap());
            i += 1;
        }
        v
    }
}

} // verus!
