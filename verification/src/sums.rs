//! Finite sums of natural-number valued functions and the facts about them
//! that the metrics need.
use vstd::prelude::*;

verus! {

/// `f(0) + f(1) + ... + f(n - 1)`.
pub open spec fn sum_to(f: spec_fn(int) -> nat, n: int) -> nat
    decreases n,
{
    if n <= 0 {
        0
    } else {
        sum_to(f, n - 1) + f(n - 1)
    }
}

/// Sums only depend on the values on `[0, n)`.
pub proof fn lemma_sum_ext(f: spec_fn(int) -> nat, g: spec_fn(int) -> nat, n: int)
    requires
        forall|i: int| 0 <= i < n ==> #[trigger] f(i) == g(i),
    ensures
        sum_to(f, n) == sum_to(g, n),
    decreases n,
{
    if n > 0 {
        lemma_sum_ext(f, g, n - 1);
    }
}

/// The sum of a pointwise sum is the sum of the sums.
pub proof fn lemma_sum_add(f: spec_fn(int) -> nat, g: spec_fn(int) -> nat, h: spec_fn(int) -> nat, n: int)
    requires
        forall|i: int| 0 <= i < n ==> #[trigger] h(i) == f(i) + g(i),
    ensures
        sum_to(h, n) == sum_to(f, n) + sum_to(g, n),
    decreases n,
{
    if n > 0 {
        lemma_sum_add(f, g, h, n - 1);
    }
}

/// Sums are monotone in the summand.
pub proof fn lemma_sum_le(f: spec_fn(int) -> nat, g: spec_fn(int) -> nat, n: int)
    requires
        forall|i: int| 0 <= i < n ==> #[trigger] f(i) <= g(i),
    ensures
        sum_to(f, n) <= sum_to(g, n),
    decreases n,
{
    if n > 0 {
        lemma_sum_le(f, g, n - 1);
    }
}

/// Sums are monotone in their length.
pub proof fn lemma_sum_prefix_le(f: spec_fn(int) -> nat, k: int, n: int)
    requires
        k <= n,
    ensures
        sum_to(f, k) <= sum_to(f, n),
    decreases n - k,
{
    if k < n {
        lemma_sum_prefix_le(f, k, n - 1);
    }
}

/// A single summand never exceeds the sum.
pub proof fn lemma_term_le_sum(f: spec_fn(int) -> nat, i: int, n: int)
    requires
        0 <= i < n,
    ensures
        f(i) <= sum_to(f, n),
{
    lemma_sum_prefix_le(f, i + 1, n);
}

/// Leaving out the summand at `c` and adding it back gives the full sum.
pub proof fn lemma_sum_except(f: spec_fn(int) -> nat, g: spec_fn(int) -> nat, c: int, n: int)
    requires
        0 <= c < n,
        forall|i: int| 0 <= i < n ==> #[trigger] g(i) == (if i == c { 0 } else { f(i) }),
    ensures
        sum_to(g, n) + f(c) == sum_to(f, n),
    decreases n,
{
    if n - 1 == c {
        lemma_sum_ext(f, g, n - 1);
    } else {
        lemma_sum_except(f, g, c, n - 1);
    }
}

/// An indicator of one point of `[0, n)` sums to one.
pub proof fn lemma_sum_indicator(f: spec_fn(int) -> nat, a: int, n: int)
    requires
        0 <= a < n,
        forall|i: int| 0 <= i < n ==> #[trigger] f(i) == (if i == a { 1nat } else { 0nat }),
    ensures
        sum_to(f, n) == 1,
{
    let z = |i: int| 0nat;
    lemma_sum_except(f, z, a, n);
    lemma_sum_zero(z, n);
}

/// A sum of zeros is zero.
pub proof fn lemma_sum_zero(f: spec_fn(int) -> nat, n: int)
    requires
        forall|i: int| 0 <= i < n ==> #[trigger] f(i) == 0,
    ensures
        sum_to(f, n) == 0,
    decreases n,
{
    if n > 0 {
        lemma_sum_zero(f, n - 1);
    }
}

/// Summing a table by rows or by columns gives the same total.
pub proof fn lemma_sum_swap(m: spec_fn(int, int) -> nat, rows: int, cols: int)
    requires
        rows >= 0,
        cols >= 0,
    ensures
        sum_to(|r: int| sum_to(|c: int| m(r, c), cols), rows) == sum_to(
            |c: int| sum_to(|r: int| m(r, c), rows),
            cols,
        ),
    decreases rows,
{
    let rowsum = |r: int| sum_to(|c: int| m(r, c), cols);
    let full = |c: int| sum_to(|r: int| m(r, c), rows);
    if rows > 0 {
        lemma_sum_swap(m, rows - 1, cols);
        let prev = |c: int| sum_to(|r: int| m(r, c), rows - 1);
        let last = |c: int| m(rows - 1, c);
        assert forall|c: int| 0 <= c < cols implies #[trigger] full(c) == prev(c) + last(c) by {
            assert(sum_to(|r: int| m(r, c), rows) == sum_to(|r: int| m(r, c), rows - 1) + m(
                rows - 1,
                c,
            ));
        }
        lemma_sum_add(prev, last, full, cols);
        assert(sum_to(rowsum, rows) == sum_to(rowsum, rows - 1) + rowsum(rows - 1));
        assert(rowsum(rows - 1) == sum_to(last, cols));
    } else {
        lemma_sum_zero(full, cols);
    }
}

} // verus!
