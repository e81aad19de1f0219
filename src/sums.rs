//! Finite sums of natural numbers and the facts about them that the
//! counting proofs use.

use vstd::prelude::*;

verus! {

/// `f(0) + f(1) + ... + f(n - 1)`.
pub open spec fn sum_to(n: int, f: spec_fn(int) -> nat) -> nat
    decreases n,
{
    if n <= 0 {
        0
    } else {
        sum_to(n - 1, f) + f(n - 1)
    }
}

/// 1 for true, 0 for false.
pub open spec fn indicator(b: bool) -> nat {
    if b {
        1
    } else {
        0
    }
}

/// Sums of pointwise equal terms are equal.
pub proof fn lemma_sum_equal(n: int, f: spec_fn(int) -> nat, g: spec_fn(int) -> nat)
    requires
        forall|i: int| 0 <= i < n ==> #[trigger] f(i) == g(i),
    ensures
        sum_to(n, f) == sum_to(n, g),
    decreases n,
{
    if n > 0 {
        lemma_sum_equal(n - 1, f, g);
    }
}

/// Sums of pointwise smaller terms are smaller.
pub proof fn lemma_sum_monotone(n: int, f: spec_fn(int) -> nat, g: spec_fn(int) -> nat)
    requires
        forall|i: int| 0 <= i < n ==> #[trigger] f(i) <= g(i),
    ensures
        sum_to(n, f) <= sum_to(n, g),
    decreases n,
{
    if n > 0 {
        lemma_sum_monotone(n - 1, f, g);
    }
}

/// A sum of `n` terms equal to `c` is `n * c`.
pub proof fn lemma_sum_constant(n: int, f: spec_fn(int) -> nat, c: nat)
    requires
        n >= 0,
        forall|i: int| 0 <= i < n ==> #[trigger] f(i) == c,
    ensures
        sum_to(n, f) == n * c,
    decreases n,
{
    if n > 0 {
        lemma_sum_constant(n - 1, f, c);
        assert((n - 1) * c + c == n * c) by (nonlinear_arith);
    } else {
        assert(n * c == 0) by (nonlinear_arith)
            requires
                n == 0,
        ;
    }
}

/// A sum grows with the number of its terms.
pub proof fn lemma_sum_prefix(m: int, n: int, f: spec_fn(int) -> nat)
    requires
        m <= n,
    ensures
        sum_to(m, f) <= sum_to(n, f),
    decreases n - m,
{
    if m < n {
        lemma_sum_prefix(m, n - 1, f);
    }
}

} // verus!
