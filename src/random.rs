use vstd::prelude::*;
use std::sync::Mutex;
use bracket_random::prelude::RandomNumberGenerator;

verus! {

/// bracket_random's `RandomNumberGenerator`, carried as an opaque value.
#[verifier::external_type_specification]
#[verifier::external_body]
pub struct ExRandomNumberGenerator(RandomNumberGenerator);

/// std's `Mutex`, carried as an opaque value.
#[verifier::external_type_specification]
#[verifier::external_body]
#[verifier::reject_recursive_types(T)]
pub struct ExMutex<T: ?Sized>(Mutex<T>);

/// Relies on bracket_random's `RandomNumberGenerator::new` (a generator seeded from the
/// operating system's entropy, or the clock), placed behind std's `Mutex::new`.
#[verifier::external_body]
fn new_generator() -> Mutex<RandomNumberGenerator> {
    Mutex::new(RandomNumberGenerator::new())
}

/// Relies on bracket_random's `RandomNumberGenerator::range`, which draws from
/// `min..max` and panics when that range is empty; the generator is taken through
/// `Mutex::lock`, whose lock nothing in this crate can poison.
#[verifier::external_body]
fn draw_in_range(rng: &Mutex<RandomNumberGenerator>, min: u32, max: u32) -> (r: u32)
    requires
        min < max,
    ensures
        min <= r < max,
{
    rng.lock().unwrap().range(min, max)
}

/// A random source shared behind a lock, so readers need no exclusive borrow.
pub struct RandomNumbers {
    rng: Mutex<RandomNumberGenerator>,
}

impl RandomNumbers {
    /// A new source, seeded from the operating system's entropy.
    pub fn new() -> (r: RandomNumbers) {
        RandomNumbers { rng: new_generator() }
    }

    /// A number in `[min, max)`.
    pub fn range(&self, min: u32, max: u32) -> (r: u32)
        requires
            min < max,
        ensures
            min <= r < max,
    {
        draw_in_range(&self.rng, min, max)
    }
}

} // verus!
