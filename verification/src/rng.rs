//! Randomness for the generator. The generator draws through the
//! `RandomSource` trait so callers needing reproducibility can inject a
//! deterministic source; the game itself uses `ThreadRandom`, which draws
//! from the ambient generator of the `rand` crate.

use vstd::prelude::*;

verus! {

/// A source of uniform draws. Nothing is promised about the distribution,
/// only that a draw from a non-empty half-open range lies in that range.
pub trait RandomSource {
    /// A draw from `[low, high)`.
    fn next_in(&mut self, low: i32, high: i32) -> (r: i32)
        requires
            low < high,
        ensures
            low <= r < high,
    ;

    /// A coin flip.
    fn next_bool(&mut self) -> bool;
}

/// The ambient random source: every draw comes from the process-global
/// thread-local generator.
pub struct ThreadRandom;

/// Relies on `rand::Rng::gen_range` on the thread-local generator: a draw
/// from a range lies in that range, and the call panics only on an empty
/// range, which the precondition rules out.
#[verifier::external_body]
fn rand_range(low: i32, high: i32) -> (r: i32)
    requires
        low < high,
    ensures
        low <= r < high,
{
    rand::Rng::gen_range(&mut rand::thread_rng(), low..high)
}

/// Relies on `rand::random::<bool>`: some boolean comes back; nothing is
/// promised of its value.
#[verifier::external_body]
fn rand_flip() -> bool {
    rand::random::<bool>()
}

impl ThreadRandom {
    pub fn new() -> ThreadRandom {
        ThreadRandom
    }
}

impl RandomSource for ThreadRandom {
    fn next_in(&mut self, low: i32, high: i32) -> (r: i32) {
        rand_range(low, high)
    }

    fn next_bool(&mut self) -> bool {
        rand_flip()
    }
}

/// A small deterministic linear congruential generator, for reproducible
/// dungeons in tests. State stays below 2^31.
pub struct Lcg {
    state: u64,
}

impl Lcg {
    pub fn new(seed: u64) -> Lcg {
        Lcg { state: seed % 0x8000_0000 }
    }

    /// Advance the generator and return a value below 2^31.
    fn next_raw(&mut self) -> (r: u64)
        ensures
            r < 0x8000_0000,
    {
        let s = self.state % 0x8000_0000;
        proof {
            assert(s * 1103515245 + 12345 <= 0x7fff_ffff * 1103515245 + 12345)
                by (nonlinear_arith)
                requires
                    s <= 0x7fff_ffff,
            ;
        }
        self.state = (s * 1103515245 + 12345) % 0x8000_0000;
        self.state
    }
}

impl RandomSource for Lcg {
    fn next_in(&mut self, low: i32, high: i32) -> (r: i32) {
        let span = (high as i64 - low as i64) as u64;
        // The high bits of a linear congruential generator are the better
        // distributed ones.
        let raw = self.next_raw() >> 15;
        let offset = raw % span;
        (low as i64 + offset as i64) as i32
    }

    fn next_bool(&mut self) -> bool {
        self.next_raw() % 2 == 1
    }
}

} // verus!
