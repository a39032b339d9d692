use vstd::prelude::*;

use rand::RngCore;

verus! {

/// A pluggable source of pseudo-random bytes. Production implementations draw
/// from a real entropy source; deterministic implementations substitute for
/// it in tests. Nothing is promised of the bytes it yields.
pub trait RandomSource {
    /// The next byte of the stream.
    fn next_byte(&mut self) -> u8;
}

/// A deterministic byte source: it yields the low byte of a counter that
/// advances by a fixed step, wrapping, on every draw. A step of zero gives a
/// constant stream.
pub struct StepRandom {
    value: u64,
    step: u64,
}

impl View for StepRandom {
    type V = (u64, u64);

    closed spec fn view(&self) -> (u64, u64) {
        (self.value, self.step)
    }
}

impl StepRandom {
    /// A stepped source starting at `value` and advancing by `step`.
    pub fn new(value: u64, step: u64) -> (r: StepRandom)
        ensures
            r@ == (value, step),
    {
        StepRandom { value, step }
    }
}

impl RandomSource for StepRandom {
    fn next_byte(&mut self) -> u8 {
        let v = self.value;
        self.value = self.value.wrapping_add(self.step);
        (v % 256) as u8
    }
}

/// Declares rand::rngs::ThreadRng so that a value of it can be held and
/// passed through; what is inside it stays opaque.
#[verifier::external_type_specification]
#[verifier::external_body]
pub struct ExThreadRng(rand::rngs::ThreadRng);

/// Relies on rand::thread_rng: a handle to the lazily initialized,
/// system-seeded thread-local generator.
#[verifier::external_body]
fn fresh_thread_rng() -> rand::rngs::ThreadRng {
    rand::thread_rng()
}

/// Relies on rand::RngCore::next_u32 for rand::rngs::ThreadRng: a
/// pseudo-random 32-bit value. Nothing is promised of the value.
#[verifier::external_body]
fn thread_rng_next_u32(rng: &mut rand::rngs::ThreadRng) -> u32 {
    rng.next_u32()
}

/// The production byte source: a thread-local pseudo-random generator seeded
/// by the system.
pub struct ThreadRandom {
    rng: rand::rngs::ThreadRng,
}

impl ThreadRandom {
    /// A source drawing from the calling thread's generator.
    pub fn new() -> (r: ThreadRandom) {
        ThreadRandom { rng: fresh_thread_rng() }
    }
}

impl RandomSource for ThreadRandom {
    fn next_byte(&mut self) -> u8 {
        let word = thread_rng_next_u32(&mut self.rng);
        (word % 256) as u8
    }
}

} // verus!
