//! Exact Fibonacci numbers of arbitrary magnitude: a fast-doubling engine
//! for single values and a chunked, parallel generator for inclusive ranges,
//! both specified against the mathematical sequence.

pub mod bignum;
pub mod engine;
pub mod math;

pub use bignum::big_value;
pub use engine::fib;
pub use engine::fib_range;
pub use engine::range_len;
pub use engine::Fib;

pub use math::lemma_fib_doubling;
pub use math::lemma_fib_nondecreasing;
pub use math::lemma_fib_positive;
pub use math::lemma_fib_recurrence;
pub use math::lemma_fib_strictly_increasing;
pub use math::spec_fib;
