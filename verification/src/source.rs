//! Suppliers of sampling indices. The deck engine asks a source for an
//! index below the current population size; a process-local random source
//! gives uniform draws, and a cycling source gives reproducible ones.

use vstd::prelude::*;

verus! {

/// A supplier of indices. `pick(bound)` answers with some index below
/// `bound`; which one is the source's own affair.
pub trait IndexSource {
    fn pick(&mut self, bound: usize) -> (r: usize)
        requires
            bound > 0,
        ensures
            r < bound,
    ;
}

#[verifier::external_type_specification]
#[verifier::external_body]
pub struct ExThreadRng(rand::rngs::ThreadRng);

/// An index source backed by the process-local generator of `rand`.
pub struct ThreadRandom {
    rng: rand::rngs::ThreadRng,
}

/// Relies on rand::thread_rng: hands out the process-local generator.
#[verifier::external_body]
fn fresh_thread_rng() -> rand::rngs::ThreadRng {
    rand::thread_rng()
}

/// Relies on rand::Rng::gen_range over `0..bound`: the sample lies in the
/// range, which `bound > 0` keeps nonempty (an empty range would panic).
#[verifier::external_body]
fn pick_below(rng: &mut rand::rngs::ThreadRng, bound: usize) -> (r: usize)
    requires
        bound > 0,
    ensures
        r < bound,
{
    rand::Rng::gen_range(rng, 0..bound)
}

impl ThreadRandom {
    pub fn new() -> ThreadRandom {
        ThreadRandom { rng: fresh_thread_rng() }
    }
}

impl IndexSource for ThreadRandom {
    fn pick(&mut self, bound: usize) -> (r: usize) {
        pick_below(&mut self.rng, bound)
    }
}

/// A deterministic index source: walks a fixed list of values round and
/// round, reducing each modulo the requested bound. With an empty list it
/// always answers zero.
pub struct CycleSource {
    values: Vec<usize>,
    at: usize,
}

impl CycleSource {
    pub fn new(values: Vec<usize>) -> CycleSource {
        CycleSource { values, at: 0 }
    }
}

impl IndexSource for CycleSource {
    fn pick(&mut self, bound: usize) -> (r: usize) {
        if self.values.len() == 0 {
            0
        } else {
            let i = if self.at >= self.values.len() {
                0
            } else {
                self.at
            };
            self.at = i + 1;
            self.values[i] % bound
        }
    }
}

} // verus!
