//! The mathematical Fibonacci sequence and the identities behind the
//! fast-doubling algorithm, stated and proved over `nat`.

use vstd::prelude::*;

verus! {

/// F(0) = 0, F(1) = 1, F(n) = F(n-1) + F(n-2).
pub open spec fn spec_fib(n: nat) -> nat
    decreases n,
{
    if n == 0 {
        0
    } else if n == 1 {
        1
    } else {
        spec_fib((n - 1) as nat) + spec_fib((n - 2) as nat)
    }
}

/// The defining recurrence, restated for indices n >= 2: each Fibonacci
/// number is the sum of its two predecessors.
pub proof fn lemma_fib_recurrence(n: nat)
    requires
        n >= 2,
    ensures
        spec_fib(n) == spec_fib((n - 1) as nat) + spec_fib((n - 2) as nat),
{
}

/// The sequence never decreases: F(n) <= F(n + 1) for every n.
pub proof fn lemma_fib_nondecreasing(n: nat)
    ensures
        spec_fib(n) <= spec_fib(n + 1),
    decreases n,
{
    if n >= 2 {
        lemma_fib_nondecreasing((n - 1) as nat);
    }
}

/// F(n) >= 1 from index 1 onward.
pub proof fn lemma_fib_positive(n: nat)
    requires
        n >= 1,
    ensures
        spec_fib(n) >= 1,
    decreases n,
{
    if n >= 2 {
        lemma_fib_positive((n - 1) as nat);
    }
}

/// Strict growth: from index 3 onward each Fibonacci number is strictly
/// larger than its predecessor (F(1) = F(2) = 1 is the sole plateau).
pub proof fn lemma_fib_strictly_increasing(n: nat)
    requires
        n >= 3,
    ensures
        spec_fib(n) > spec_fib((n - 1) as nat),
{
    lemma_fib_positive((n - 2) as nat);
}

/// The fast-doubling identities, with the even case phrased additively to
/// stay inside `nat`:
///   F(2k) + F(k)^2 == 2 * F(k) * F(k+1)    (i.e. F(2k) = F(k)*(2F(k+1) - F(k)))
///   F(2k+1) == F(k)^2 + F(k+1)^2
pub proof fn lemma_fib_doubling(k: nat)
    ensures
        spec_fib(2 * k) + spec_fib(k) * spec_fib(k) == 2 * spec_fib(k) * spec_fib(k + 1),
        spec_fib(2 * k + 1) == spec_fib(k) * spec_fib(k) + spec_fib(k + 1) * spec_fib(k + 1),
    decreases k,
{
    if k == 0 {
        assert(spec_fib(0) == 0);
        assert(spec_fib(1) == 1);
        assert(2 * spec_fib(0) * spec_fib(1) == 0) by (nonlinear_arith)
            requires
                spec_fib(0) == 0,
        ;
    } else {
        let j = (k - 1) as nat;
        lemma_fib_doubling(j);
        let fj = spec_fib(j);
        let fk = spec_fib(k);
        let fk1 = spec_fib(k + 1);
        assert(fk == spec_fib(j + 1));
        assert(fk1 == fj + fk);
        // Unfold the two indices above 2j so the recurrence reaches 2k and 2k + 1.
        assert(spec_fib(2 * j + 2) == spec_fib(2 * j + 1) + spec_fib(2 * j));
        assert(spec_fib(2 * j + 3) == spec_fib(2 * j + 2) + spec_fib(2 * j + 1));
        assert(2 * k == 2 * j + 2);
        assert(2 * k + 1 == 2 * j + 3);
        // Even case: F(2k) = F(2j+1) + F(2j), and the induction hypothesis
        // rewrites both summands in terms of fj and fk.
        assert(spec_fib(2 * k) + fj * fj == fj * fj + fk * fk + 2 * fj * fk) by {
            assert(spec_fib(2 * j) + fj * fj == 2 * fj * fk);
            assert(spec_fib(2 * j + 1) == fj * fj + fk * fk);
        }
        assert(spec_fib(2 * k) == fk * fk + 2 * fj * fk);
        assert(fk * fk + 2 * fj * fk + fk * fk == 2 * fk * (fj + fk)) by (nonlinear_arith);
        assert(spec_fib(2 * k) + fk * fk == 2 * fk * fk1);
        // Odd case: F(2k+1) = F(2k) + F(2j+1).
        assert(spec_fib(2 * k + 1) == fk * fk + 2 * fj * fk + fj * fj + fk * fk);
        assert(fk * fk + 2 * fj * fk + fj * fj == (fj + fk) * (fj + fk)) by (nonlinear_arith);
        assert(spec_fib(2 * k + 1) == fk1 * fk1 + fk * fk);
    }
}

} // verus!
