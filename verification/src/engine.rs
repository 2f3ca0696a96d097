//! The numeric engine: fast doubling for a single Fibonacci value, and
//! chunked, parallel generation of an inclusive range of values.

use crate::bignum::big_add;
use crate::bignum::big_clone;
use crate::bignum::big_double;
use crate::bignum::big_mul;
use crate::bignum::big_one;
use crate::bignum::big_sub;
use crate::bignum::big_value;
use crate::bignum::big_zero;
use crate::math::lemma_fib_doubling;
use crate::math::lemma_fib_nondecreasing;
use crate::math::lemma_fib_recurrence;
use crate::math::spec_fib;
use core::ops::RangeInclusive;
use num_bigint::BigUint;
use rayon::iter::IntoParallelRefIterator;
use rayon::iter::ParallelIterator;
use vstd::prelude::*;

verus! {

/// The pair (F(k), F(k+1)) that the fast-doubling recursion passes upward.
type FibPair = (BigUint, BigUint);

/// Computes (F(n), F(n+1)) by recursive halving: from (F(k), F(k+1)) with
/// k = n / 2 it forms F(2k) = F(k)(2F(k+1) - F(k)) and
/// F(2k+1) = F(k)^2 + F(k+1)^2, then shifts by one when n is odd.
fn fib_fast_doubling_helper(n: u128) -> (r: FibPair)
    ensures
        big_value(r.0) == spec_fib(n as nat),
        big_value(r.1) == spec_fib(n as nat + 1),
    decreases n,
{
    if n == 0 {
        return (big_zero(), big_one());
    }

    let (fk, fk1) = fib_fast_doubling_helper(n / 2);
    let ghost k = (n / 2) as nat;
    proof {
        lemma_fib_doubling(k);
        lemma_fib_nondecreasing(k);
    }

    let two_fk1 = big_double(&fk1);
    let term = big_sub(&two_fk1, &fk);
    let f2k = big_mul(&fk, &term);
    proof {
        // F(k) * (2 F(k+1) - F(k)) equals F(2k) by the doubling identity.
        assert(big_value(f2k) + spec_fib(k) * spec_fib(k) == 2 * spec_fib(k) * spec_fib(k + 1))
            by (nonlinear_arith)
            requires
                big_value(f2k) == spec_fib(k) * big_value(term),
                big_value(term) + spec_fib(k) == 2 * spec_fib(k + 1),
        ;
        assert(big_value(f2k) == spec_fib(2 * k));
    }
    let fk_sq = big_mul(&fk, &fk);
    let fk1_sq = big_mul(&fk1, &fk1);
    let f2k1 = big_add(&fk_sq, &fk1_sq);
    assert(big_value(f2k1) == spec_fib(2 * k + 1));

    if n % 2 == 0 {
        assert(n as nat == 2 * k);
        (f2k, f2k1)
    } else {
        assert(n as nat == 2 * k + 1);
        let f2k2 = big_add(&f2k1, &f2k);
        proof {
            lemma_fib_recurrence(2 * k + 2);
        }
        (f2k1, f2k2)
    }
}

/// Computes the nth Fibonacci number, exactly, by fast doubling.
pub fn fib(n: u128) -> (r: BigUint)
    ensures
        big_value(r) == spec_fib(n as nat),
{
    match n {
        0 => big_zero(),
        1 => big_one(),
        _ => fib_fast_doubling_helper(n).0,
    }
}

/// How many values an inclusive index range holds: zero for an inverted
/// range, end - start + 1 otherwise.
pub open spec fn range_len(start: u128, end: u128) -> nat {
    if end < start {
        0
    } else {
        (end - start + 1) as nat
    }
}

/// A chunk the range generator can hand to a worker: an inclusive sub-range
/// whose length fits in a `usize`.
pub open spec fn chunk_wf(lo: u128, hi: u128) -> bool {
    lo <= hi && hi - lo < usize::MAX
}

/// The finished output of one chunk: `count` values, the jth being F(first + j).
pub open spec fn chunk_filled(first: nat, count: nat, vals: Seq<BigUint>) -> bool {
    vals.len() == count && forall|j: int|
        0 <= j < count ==> big_value(#[trigger] vals[j]) == spec_fib((first + j) as nat)
}

/// Fills one chunk: seeds (F(lo), F(lo+1)) by fast doubling, then steps
/// iteratively, emitting each value in ascending index order.
fn fill_chunk(lo: u128, hi: u128) -> (r: Vec<BigUint>)
    requires
        chunk_wf(lo, hi),
    ensures
        chunk_filled(lo as nat, (hi - lo + 1) as nat, r@),
{
    let count = (hi - lo + 1) as usize;
    let mut result: Vec<BigUint> = Vec::with_capacity(count);

    let (seed_a, seed_b) = fib_fast_doubling_helper(lo);
    let mut a = seed_a;
    let mut b = seed_b;
    result.push(big_clone(&a));

    let mut i: usize = 1;
    while i < count
        invariant
            1 <= i <= count,
            count == hi - lo + 1,
            lo <= hi,
            result@.len() == i,
            forall|j: int|
                0 <= j < i ==> big_value(#[trigger] result@[j]) == spec_fib((lo + j) as nat),
            big_value(a) == spec_fib((lo + i - 1) as nat),
            big_value(b) == spec_fib((lo + i) as nat),
        decreases count - i,
    {
        let next = big_add(&a, &b);
        proof {
            lemma_fib_recurrence((lo + i + 1) as nat);
        }
        a = b;
        b = next;
        result.push(big_clone(&a));
        i = i + 1;
    }
    result
}

/// Relies on rayon's `par_iter().map(..).collect()` on a slice: the closure
/// (which only calls the verified `fill_chunk`) is applied to every element,
/// and collecting into a `Vec` keeps the input order no matter how the work
/// was scheduled across threads.
#[verifier::external_body]
fn par_map_chunks(chunks: &Vec<(u128, u128)>) -> (r: Vec<Vec<BigUint>>)
    requires
        forall|i: int|
            0 <= i < chunks@.len() ==> #[trigger] chunk_wf(chunks@[i].0, chunks@[i].1),
    ensures
        r@.len() == chunks@.len(),
        forall|i: int|
            0 <= i < chunks@.len() ==> chunk_filled(
                (#[trigger] chunks@[i]).0 as nat,
                (chunks@[i].1 - chunks@[i].0 + 1) as nat,
                r@[i]@,
            ),
{
    chunks.par_iter().map(|c| fill_chunk(c.0, c.1)).collect()
}

/// Relies on `rayon::current_num_threads`: the current pool always holds at
/// least one thread.
#[verifier::external_body]
fn worker_count() -> (n: usize)
    ensures
        1 <= n,
{
    rayon::current_num_threads()
}

/// Partitions [start, end] into contiguous, adjacent chunks of `chunk_size`
/// indices each, the last chunk possibly shorter.
fn build_chunks(start: u128, end: u128, chunk_size: u128) -> (chunks: Vec<(u128, u128)>)
    requires
        start <= end,
        1 <= chunk_size <= usize::MAX,
    ensures
        chunks@.len() > 0,
        chunks@[0].0 == start,
        chunks@[chunks@.len() - 1].1 == end,
        forall|i: int|
            0 <= i < chunks@.len() ==> (#[trigger] chunks@[i]).0 <= chunks@[i].1 <= end,
        forall|i: int|
            0 < i < chunks@.len() ==> (#[trigger] chunks@[i]).0 == chunks@[i - 1].1 + 1,
        forall|i: int|
            0 <= i < chunks@.len() ==> (#[trigger] chunks@[i]).1 - chunks@[i].0 < chunk_size,
{
    let mut chunks: Vec<(u128, u128)> = Vec::new();
    let mut cur: u128 = start;
    loop
        invariant_except_break
            start <= cur <= end,
            1 <= chunk_size,
            chunks@.len() == 0 ==> cur == start,
            chunks@.len() > 0 ==> chunks@[0].0 == start && chunks@[chunks@.len() - 1].1 + 1
                == cur,
            forall|i: int|
                0 <= i < chunks@.len() ==> (#[trigger] chunks@[i]).0 <= chunks@[i].1 < end,
            forall|i: int|
                0 < i < chunks@.len() ==> (#[trigger] chunks@[i]).0 == chunks@[i - 1].1 + 1,
            forall|i: int|
                0 <= i < chunks@.len() ==> (#[trigger] chunks@[i]).1 - chunks@[i].0
                    < chunk_size,
        ensures
            chunks@.len() > 0,
            chunks@[0].0 == start,
            chunks@[chunks@.len() - 1].1 == end,
            forall|i: int|
                0 <= i < chunks@.len() ==> (#[trigger] chunks@[i]).0 <= chunks@[i].1 <= end,
            forall|i: int|
                0 < i < chunks@.len() ==> (#[trigger] chunks@[i]).0 == chunks@[i - 1].1 + 1,
            forall|i: int|
                0 <= i < chunks@.len() ==> (#[trigger] chunks@[i]).1 - chunks@[i].0
                    < chunk_size,
        decreases end - cur,
    {
        let remaining = end - cur;
        if remaining < chunk_size {
            chunks.push((cur, end));
            break;
        } else {
            let chunk_end = cur + (chunk_size - 1);
            chunks.push((cur, chunk_end));
            cur = chunk_end + 1;
        }
    }
    chunks
}

/// Generates F(start), ..., F(end) for an inclusive index range, in index
/// order; an inverted range yields the empty sequence. The range is split
/// into chunks sized by the available parallelism, each chunk is seeded by
/// fast doubling and filled iteratively, and the chunk outputs are merged in
/// chunk order, so the output never depends on how the chunks were scheduled.
pub fn fib_range(range: RangeInclusive<u128>) -> (r: Vec<BigUint>)
    requires
        range@.start <= range@.end ==> range@.end - range@.start < usize::MAX,
    ensures
        r@.len() == range_len(range@.start, range@.end),
        forall|i: int|
            0 <= i < r@.len() ==> big_value(#[trigger] r@[i]) == spec_fib(
                (range@.start + i) as nat,
            ),
{
    let start: u128 = *range.start();
    let end: u128 = *range.end();

    if end < start {
        return Vec::new();
    }

    let total_count = (end - start + 1) as usize;

    // Chunk size follows the available parallelism; it decides only how the
    // work is cut up, never what is produced.
    let num_threads = worker_count();
    let quotient = total_count / num_threads;
    let chunk_size = if quotient == 0 {
        1
    } else {
        quotient
    };

    let chunks = build_chunks(start, end, chunk_size as u128);
    let outputs = par_map_chunks(&chunks);

    // Fan-in: concatenate the chunk outputs in chunk order.
    let ghost n_chunks = chunks@.len() as int;
    let mut result: Vec<BigUint> = Vec::with_capacity(total_count);
    let mut rest = outputs;
    #[verifier::loop_isolation(false)]
    while rest.len() > 0
        invariant
            rest@.len() <= n_chunks,
            forall|q: int|
                n_chunks - rest@.len() <= q < n_chunks ==> chunk_filled(
                    (#[trigger] chunks@[q]).0 as nat,
                    (chunks@[q].1 - chunks@[q].0 + 1) as nat,
                    rest@[q - (n_chunks - rest@.len())]@,
                ),
            result@.len() == if rest@.len() == n_chunks {
                0int
            } else {
                chunks@[n_chunks - rest@.len() - 1].1 - start + 1
            },
            forall|i: int|
                0 <= i < result@.len() ==> big_value(#[trigger] result@[i]) == spec_fib(
                    (start + i) as nat,
                ),
        decreases rest@.len(),
    {
        let ghost p = n_chunks - rest@.len();
        let ghost prev_rest = rest@;
        let ghost prev_result = result@;
        let mut chunk = rest.remove(0);
        proof {
            assert(chunk == prev_rest[0]);
            assert(rest@ =~= prev_rest.subrange(1, prev_rest.len() as int));
            assert(chunk_filled(
                (chunks@[p]).0 as nat,
                (chunks@[p].1 - chunks@[p].0 + 1) as nat,
                prev_rest[0]@,
            ));
            // The chunk being merged starts right where the output so far ends.
            assert(result@.len() == chunks@[p].0 - start);
        }
        result.append(&mut chunk);
        proof {
            assert(result@ =~= prev_result + prev_rest[0]@);
            assert(result@.len() == chunks@[p].1 - start + 1);
            assert forall|i: int| 0 <= i < result@.len() implies big_value(
                #[trigger] result@[i],
            ) == spec_fib((start + i) as nat) by {
                if i >= prev_result.len() {
                    assert(result@[i] == prev_rest[0]@[i - prev_result.len()]);
                }
            }
            assert forall|q: int| n_chunks - rest@.len() <= q < n_chunks implies chunk_filled(
                (#[trigger] chunks@[q]).0 as nat,
                (chunks@[q].1 - chunks@[q].0 + 1) as nat,
                rest@[q - (n_chunks - rest@.len())]@,
            ) by {
                assert(rest@[q - (p + 1)] == prev_rest[q - p]);
                assert(chunk_filled(
                    (chunks@[q]).0 as nat,
                    (chunks@[q].1 - chunks@[q].0 + 1) as nat,
                    prev_rest[q - p]@,
                ));
            }
        }
    }
    result
}

/// The engine's two operations under one name.
pub struct Fib;

impl Fib {
    /// Computes the nth Fibonacci number, exactly.
    pub fn single(n: u128) -> (r: BigUint)
        ensures
            big_value(r) == spec_fib(n as nat),
    {
        fib(n)
    }

    /// Generates F(start), ..., F(end) in index order; empty when end < start.
    pub fn range(start: u128, end: u128) -> (r: Vec<BigUint>)
        requires
            start <= end ==> end - start < usize::MAX,
        ensures
            r@.len() == range_len(start, end),
            forall|i: int|
                0 <= i < r@.len() ==> big_value(#[trigger] r@[i]) == spec_fib((start + i) as nat),
    {
        fib_range(RangeInclusive::new(start, end))
    }
}

/// Relies on `core::ops::RangeInclusive::start`: it returns the stored lower
/// bound, the `start` field of the view vstd gives the type.
pub assume_specification<Idx>[ RangeInclusive::<Idx>::start ](
    r: &RangeInclusive<Idx>,
) -> (ret: &Idx)
    ensures
        *ret == r@.start,
;

/// Relies on `core::ops::RangeInclusive::end`: it returns the stored upper
/// bound, the `end` field of the view vstd gives the type.
pub assume_specification<Idx>[ RangeInclusive::<Idx>::end ](r: &RangeInclusive<Idx>) -> (ret:
    &Idx)
    ensures
        *ret == r@.end,
;

} // verus!
