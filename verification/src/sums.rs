//! Finite sums of integer-valued functions, with the algebraic facts the
//! matrix laws need: congruence, additivity, scaling, and exchanging the
//! order of a double sum.

use vstd::prelude::*;

verus! {

/// The sum of `f(0) + f(1) + ... + f(k - 1)`.
pub open spec fn sum(f: spec_fn(int) -> int, k: nat) -> int
    decreases k,
{
    if k == 0 {
        0
    } else {
        sum(f, (k - 1) as nat) + f(k - 1)
    }
}

/// The inner row of a two-argument function: `l` fixed, summed over `k`.
pub open spec fn row_fn(g: spec_fn(int, int) -> int, l: int) -> spec_fn(int) -> int {
    |k: int| g(k, l)
}

/// The inner column of a two-argument function: `k` fixed, summed over `l`.
pub open spec fn col_fn(g: spec_fn(int, int) -> int, k: int) -> spec_fn(int) -> int {
    |l: int| g(k, l)
}

/// Sums agree when the summands agree below the bound.
pub proof fn lemma_sum_congruence(f: spec_fn(int) -> int, g: spec_fn(int) -> int, k: nat)
    requires
        forall|t: int| 0 <= t < k ==> #[trigger] f(t) == g(t),
    ensures
        sum(f, k) == sum(g, k),
    decreases k,
{
    if k > 0 {
        lemma_sum_congruence(f, g, (k - 1) as nat);
    }
}

/// A sum of zeros is zero.
pub proof fn lemma_sum_zero(f: spec_fn(int) -> int, k: nat)
    requires
        forall|t: int| 0 <= t < k ==> #[trigger] f(t) == 0,
    ensures
        sum(f, k) == 0,
    decreases k,
{
    if k > 0 {
        lemma_sum_zero(f, (k - 1) as nat);
    }
}

/// Sums distribute over pointwise addition.
pub proof fn lemma_sum_add(
    h: spec_fn(int) -> int,
    f: spec_fn(int) -> int,
    g: spec_fn(int) -> int,
    k: nat,
)
    requires
        forall|t: int| 0 <= t < k ==> #[trigger] h(t) == f(t) + g(t),
    ensures
        sum(h, k) == sum(f, k) + sum(g, k),
    decreases k,
{
    if k > 0 {
        lemma_sum_add(h, f, g, (k - 1) as nat);
    }
}

/// A common factor moves out of a sum.
pub proof fn lemma_sum_scale(h: spec_fn(int) -> int, f: spec_fn(int) -> int, s: int, k: nat)
    requires
        forall|t: int| 0 <= t < k ==> #[trigger] h(t) == s * f(t),
    ensures
        sum(h, k) == s * sum(f, k),
    decreases k,
{
    if k == 0 {
        assert(s * 0 == 0) by (nonlinear_arith);
    } else {
        lemma_sum_scale(h, f, s, (k - 1) as nat);
        assert(s * (sum(f, (k - 1) as nat) + f(k - 1)) == s * sum(f, (k - 1) as nat) + s * f(
            k - 1,
        )) by (nonlinear_arith);
    }
}

/// A common factor on the right moves out of a sum.
pub proof fn lemma_sum_scale_right(h: spec_fn(int) -> int, f: spec_fn(int) -> int, s: int, k: nat)
    requires
        forall|t: int| 0 <= t < k ==> #[trigger] h(t) == f(t) * s,
    ensures
        sum(h, k) == sum(f, k) * s,
    decreases k,
{
    if k == 0 {
        assert(0 * s == 0) by (nonlinear_arith);
    } else {
        lemma_sum_scale_right(h, f, s, (k - 1) as nat);
        assert((sum(f, (k - 1) as nat) + f(k - 1)) * s == sum(f, (k - 1) as nat) * s + f(k - 1)
            * s) by (nonlinear_arith);
    }
}

/// A double sum does not depend on the order of summation.
pub proof fn lemma_sum_swap(g: spec_fn(int, int) -> int, m: nat, n: nat)
    ensures
        sum(|l: int| sum(row_fn(g, l), m), n) == sum(|k: int| sum(col_fn(g, k), n), m),
    decreases n,
{
    let lhs_fn = |l: int| sum(row_fn(g, l), m);
    if n == 0 {
        lemma_sum_zero(|k: int| sum(col_fn(g, k), 0), m);
    } else {
        lemma_sum_swap(g, m, (n - 1) as nat);
        // Peel the last column off every inner sum on the right-hand side.
        assert(forall|k: int|
            #[trigger] sum(col_fn(g, k), n) == sum(col_fn(g, k), (n - 1) as nat) + col_fn(g, k)(
                n - 1,
            ));
        lemma_sum_add(
            |k: int| sum(col_fn(g, k), n),
            |k: int| sum(col_fn(g, k), (n - 1) as nat),
            |k: int| g(k, n - 1),
            m,
        );
        // The peeled column is exactly the new outer term on the left.
        lemma_sum_congruence(row_fn(g, n - 1), |k: int| g(k, n - 1), m);
        assert(sum(lhs_fn, n) == sum(lhs_fn, (n - 1) as nat) + sum(row_fn(g, n - 1), m));
    }
}

} // verus!
