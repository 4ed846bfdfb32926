//! Finite sums over a range of integers, the arithmetic that every window
//! of the filters rests on.

use vstd::arithmetic::div_mod::{lemma_div_by_multiple, lemma_div_is_ordered, lemma_div_pos_is_pos};
use vstd::prelude::*;

verus! {

/// The sum of `f` over the integers from `from` up to, and without, `to`.
/// An empty or inverted range sums to zero.
pub open spec fn sum_over(f: spec_fn(int) -> int, from: int, to: int) -> int
    decreases to - from,
{
    if to <= from {
        0
    } else {
        sum_over(f, from, to - 1) + f(to - 1)
    }
}

/// The function that is one everywhere: its sum counts a range.
pub open spec fn unit() -> spec_fn(int) -> int {
    |j: int| 1int
}

/// The pointwise product of two functions.
pub open spec fn weighted(f: spec_fn(int) -> int, g: spec_fn(int) -> int) -> spec_fn(int) -> int {
    |j: int| f(j) * g(j)
}

/// A range may be cut in two at any point inside it.
pub proof fn lemma_sum_split(f: spec_fn(int) -> int, from: int, mid: int, to: int)
    requires
        from <= mid <= to,
    ensures
        sum_over(f, from, to) == sum_over(f, from, mid) + sum_over(f, mid, to),
    decreases to - mid,
{
    if mid < to {
        lemma_sum_split(f, from, mid, to - 1);
    }
}

/// The first term may be taken off a range as the last one may.
pub proof fn lemma_sum_first(f: spec_fn(int) -> int, from: int, to: int)
    requires
        from < to,
    ensures
        sum_over(f, from, to) == f(from) + sum_over(f, from + 1, to),
{
    lemma_sum_split(f, from, from + 1, to);
    assert(sum_over(f, from, from + 1) == sum_over(f, from, from) + f(from));
}

/// Functions that agree on a range have the same sum over it.
pub proof fn lemma_sum_agree(f: spec_fn(int) -> int, g: spec_fn(int) -> int, from: int, to: int)
    requires
        forall|j: int| from <= j < to ==> #[trigger] f(j) == g(j),
    ensures
        sum_over(f, from, to) == sum_over(g, from, to),
    decreases to - from,
{
    if from < to {
        lemma_sum_agree(f, g, from, to - 1);
    }
}

/// A sum lies between the smallest and the largest term, each taken as
/// often as the range is long.
pub proof fn lemma_sum_bounds(f: spec_fn(int) -> int, from: int, to: int, low: int, high: int)
    requires
        from <= to,
        forall|j: int| from <= j < to ==> low <= #[trigger] f(j) <= high,
    ensures
        low * (to - from) <= sum_over(f, from, to) <= high * (to - from),
    decreases to - from,
{
    if from < to {
        lemma_sum_bounds(f, from, to - 1, low, high);
        assert(low * (to - from) == low * (to - 1 - from) + low) by (nonlinear_arith);
        assert(high * (to - from) == high * (to - 1 - from) + high) by (nonlinear_arith);
    } else {
        assert(low * (to - from) == 0 && high * (to - from) == 0) by (nonlinear_arith)
            requires
                to - from == 0,
        ;
    }
}

/// The sum of a function that is `value` all over a range.
pub proof fn lemma_sum_constant(f: spec_fn(int) -> int, from: int, to: int, value: int)
    requires
        from <= to,
        forall|j: int| from <= j < to ==> #[trigger] f(j) == value,
    ensures
        sum_over(f, from, to) == value * (to - from),
{
    lemma_sum_bounds(f, from, to, value, value);
}

/// Terms that are zero at both ends of a range add nothing to it.
pub proof fn lemma_sum_support(f: spec_fn(int) -> int, from: int, lo: int, hi: int, to: int)
    requires
        from <= lo <= hi <= to,
        forall|j: int| from <= j < lo ==> #[trigger] f(j) == 0,
        forall|j: int| hi <= j < to ==> #[trigger] f(j) == 0,
    ensures
        sum_over(f, from, to) == sum_over(f, lo, hi),
{
    lemma_sum_split(f, from, lo, to);
    lemma_sum_split(f, lo, hi, to);
    lemma_sum_constant(f, from, lo, 0);
    lemma_sum_constant(f, hi, to, 0);
}

/// The sum of `unit` is the length of the range.
pub proof fn lemma_sum_unit(from: int, to: int)
    ensures
        sum_over(unit(), from, to) == if from <= to {
            to - from
        } else {
            0
        },
    decreases to - from,
{
    if from < to {
        lemma_sum_unit(from, to - 1);
    }
}

/// A function that is nowhere larger than another has no larger sum.
pub proof fn lemma_sum_le(f: spec_fn(int) -> int, g: spec_fn(int) -> int, from: int, to: int)
    requires
        forall|j: int| from <= j < to ==> #[trigger] f(j) <= g(j),
    ensures
        sum_over(f, from, to) <= sum_over(g, from, to),
    decreases to - from,
{
    if from < to {
        lemma_sum_le(f, g, from, to - 1);
    }
}

/// The sum of a pointwise sum is the sum of the sums.
pub proof fn lemma_sum_add(
    f: spec_fn(int) -> int,
    g: spec_fn(int) -> int,
    h: spec_fn(int) -> int,
    from: int,
    to: int,
)
    requires
        forall|j: int| from <= j < to ==> #[trigger] f(j) == g(j) + h(j),
    ensures
        sum_over(f, from, to) == sum_over(g, from, to) + sum_over(h, from, to),
    decreases to - from,
{
    if from < to {
        lemma_sum_add(f, g, h, from, to - 1);
    }
}

/// A factor common to every term may be taken out of the sum.
pub proof fn lemma_sum_scale(
    f: spec_fn(int) -> int,
    g: spec_fn(int) -> int,
    factor: int,
    from: int,
    to: int,
)
    requires
        forall|j: int| from <= j < to ==> #[trigger] f(j) == factor * g(j),
    ensures
        sum_over(f, from, to) == factor * sum_over(g, from, to),
    decreases to - from,
{
    if from < to {
        lemma_sum_scale(f, g, factor, from, to - 1);
        assert(factor * (sum_over(g, from, to - 1) + g(to - 1)) == factor * sum_over(
            g,
            from,
            to - 1,
        ) + factor * g(to - 1)) by (nonlinear_arith);
    } else {
        assert(factor * 0 == 0);
    }
}

/// A total of `count` terms, none above `high`, has a mean between zero and
/// `high`.
pub proof fn lemma_mean_bounds(total: int, count: int, high: int)
    requires
        0 < count,
        0 <= high,
        0 <= total <= high * count,
    ensures
        0 <= total / count <= high,
{
    lemma_div_pos_is_pos(total, count);
    lemma_div_is_ordered(total, high * count, count);
    lemma_div_by_multiple(high, count);
}

/// The mean of `count` terms that all equal `value` is `value`.
pub proof fn lemma_mean_of_equals(value: int, count: int)
    requires
        0 < count,
        0 <= value,
    ensures
        (value * count) / count == value,
{
    lemma_div_by_multiple(value, count);
}

} // verus!
