//! The windows of the filters along one line of samples: which positions a
//! window covers, how the line is read at and beyond its two ends, and the
//! flat and the triangular sums over a window.

use crate::sums::{
    lemma_sum_add, lemma_sum_agree, lemma_sum_bounds, lemma_sum_constant, lemma_sum_first,
    lemma_sum_le, lemma_sum_scale, lemma_sum_split, lemma_sum_support, lemma_sum_unit, sum_over,
    unit, weighted,
};
use vstd::prelude::*;

verus! {

/// The position nearest to `j` on a line of `len` samples.
pub open spec fn clip(j: int, len: int) -> int {
    if j < 0 {
        0
    } else if j >= len {
        len - 1
    } else {
        j
    }
}

/// The sample of `line` at `j`. A position before the line reads its first
/// sample and one behind the line its last.
pub open spec fn sample(line: Seq<u8>, j: int) -> int {
    line[clip(j, line.len() as int)] as int
}

/// `sample` as a function of the position.
pub open spec fn samples(line: Seq<u8>) -> spec_fn(int) -> int {
    |j: int| sample(line, j)
}

/// The sum of the samples from `from` up to, and without, `to`.
pub open spec fn span_sum(line: Seq<u8>, from: int, to: int) -> int {
    sum_over(samples(line), from, to)
}

/// The first position inside the line of the window of `radius` around `at`.
pub open spec fn window_start(at: int, radius: int) -> int {
    if at - radius < 0 {
        0
    } else {
        at - radius
    }
}

/// The position behind the last one inside a line of `len` samples of the
/// window of `radius` around `at`.
pub open spec fn window_end(at: int, radius: int, len: int) -> int {
    if at + radius + 1 > len {
        len
    } else {
        at + radius + 1
    }
}

/// The weight of the triangular window of `radius` at `offset` from its
/// centre: `radius + 1` at the centre, one less with each step away from it,
/// and zero beyond `radius`.
pub open spec fn tent_weight(radius: int, offset: int) -> int {
    let distance = if offset < 0 {
        -offset
    } else {
        offset
    };
    if distance <= radius {
        radius + 1 - distance
    } else {
        0
    }
}

/// The weights of the triangular window of `radius` around `at`, by position.
pub open spec fn tent(radius: int, at: int) -> spec_fn(int) -> int {
    |j: int| tent_weight(radius, j - at)
}

/// The sum of the samples from `from` up to, and without, `to`, each weighted
/// by the triangular window of `radius` around `at`.
pub open spec fn tent_sum(line: Seq<u8>, radius: int, at: int, from: int, to: int) -> int {
    sum_over(weighted(samples(line), tent(radius, at)), from, to)
}

/// The sum of the weights themselves over the same positions.
pub open spec fn tent_mass(radius: int, at: int, from: int, to: int) -> int {
    sum_over(tent(radius, at), from, to)
}

/// The larger of two integers.
pub open spec fn larger(a: int, b: int) -> int {
    if a >= b {
        a
    } else {
        b
    }
}

/// The smaller of two integers.
pub open spec fn smaller(a: int, b: int) -> int {
    if a <= b {
        a
    } else {
        b
    }
}

/// Moving a triangular window one step to the right changes its weighted sum
/// by the terms at and right of its new centre, less those left of it: the
/// rule by which a running stack is kept up to date.
pub proof fn lemma_tent_step(g: spec_fn(int) -> int, radius: int, at: int, from: int, to: int)
    requires
        radius >= 0,
    ensures
        sum_over(weighted(g, tent(radius, at)), from, to) - sum_over(
            weighted(g, tent(radius, at - 1)),
            from,
            to,
        ) == sum_over(g, larger(from, at), smaller(to, at + radius + 1)) - sum_over(
            g,
            larger(from, at - radius - 1),
            smaller(to, at),
        ),
    decreases to - from,
{
    if from < to {
        let j = to - 1;
        lemma_tent_step(g, radius, at, from, j);
        let here = tent_weight(radius, j - at);
        let before = tent_weight(radius, j - (at - 1));
        assert(g(j) * here - g(j) * before == g(j) * (here - before)) by (nonlinear_arith);
        if at <= j <= at + radius {
            assert(g(j) * (here - before) == g(j)) by (nonlinear_arith)
                requires
                    here - before == 1,
            ;
        } else if at - radius - 1 <= j < at {
            assert(g(j) * (here - before) == -g(j)) by (nonlinear_arith)
                requires
                    here - before == -1,
            ;
        } else {
            assert(g(j) * (here - before) == 0) by (nonlinear_arith)
                requires
                    here - before == 0,
            ;
        }
    }
}

/// A sum of samples is at least zero and at most 255 for each of them.
pub proof fn lemma_span_bounds(line: Seq<u8>, from: int, to: int)
    requires
        from <= to,
    ensures
        0 <= span_sum(line, from, to) <= 255 * (to - from),
{
    lemma_sum_bounds(samples(line), from, to, 0, 255);
}

/// On a line whose samples all equal `value`, a sum is `value` for each
/// position, inside the line or beyond it.
pub proof fn lemma_span_uniform(line: Seq<u8>, value: int, from: int, to: int)
    requires
        from <= to,
        line.len() > 0,
        forall|k: int| 0 <= k < line.len() ==> line[k] == value,
    ensures
        span_sum(line, from, to) == value * (to - from),
{
    lemma_sum_constant(samples(line), from, to, value);
}

/// A weighted sum of samples is at least zero and at most 255 times the sum
/// of the weights.
pub proof fn lemma_tent_bounds(line: Seq<u8>, radius: int, at: int, from: int, to: int)
    requires
        radius >= 0,
    ensures
        0 <= tent_sum(line, radius, at, from, to) <= 255 * tent_mass(radius, at, from, to),
        0 <= tent_mass(radius, at, from, to),
{
    let f = weighted(samples(line), tent(radius, at));
    let top = weighted(|j: int| 255int, tent(radius, at));
    assert forall|j: int| from <= j < to implies 0 <= #[trigger] f(j) <= top(j) by {
        let w = tent_weight(radius, j - at);
        let v = sample(line, j);
        assert(0 <= v * w <= 255 * w) by (nonlinear_arith)
            requires
                0 <= v <= 255,
                0 <= w,
        ;
    }
    lemma_sum_le(f, top, from, to);
    lemma_sum_scale(top, tent(radius, at), 255, from, to);
    lemma_sum_le(|j: int| 0int, f, from, to);
    if from <= to {
        lemma_sum_constant(|j: int| 0int, from, to, 0);
    }
}

/// On a line whose samples all equal `value`, a weighted sum is `value`
/// times the sum of the weights.
pub proof fn lemma_tent_uniform(
    line: Seq<u8>,
    value: int,
    radius: int,
    at: int,
    from: int,
    to: int,
)
    requires
        line.len() > 0,
        forall|k: int| 0 <= k < line.len() ==> line[k] == value,
    ensures
        tent_sum(line, radius, at, from, to) == value * tent_mass(radius, at, from, to),
{
    let f = weighted(samples(line), tent(radius, at));
    assert forall|j: int| from <= j < to implies #[trigger] f(j) == value * tent(radius, at)(j) by {}
    lemma_sum_scale(f, tent(radius, at), value, from, to);
}

/// The weights over a range that holds the centre sum to at least the
/// centre's weight, and to no more than that weight for each position.
pub proof fn lemma_tent_mass_bounds(radius: int, at: int, from: int, to: int)
    requires
        radius >= 0,
        from <= at < to,
    ensures
        radius + 1 <= tent_mass(radius, at, from, to) <= (radius + 1) * (to - from),
{
    let w = tent(radius, at);
    lemma_sum_split(w, from, at, to);
    lemma_sum_first(w, at, to);
    lemma_sum_bounds(w, from, at, 0, radius + 1);
    lemma_sum_bounds(w, at + 1, to, 0, radius + 1);
    lemma_sum_bounds(w, from, to, 0, radius + 1);
}

/// The weights of a whole triangular window of `radius` sum to the square of
/// `radius + 1`.
pub proof fn lemma_tent_mass_full(radius: int, at: int)
    requires
        radius >= 0,
    ensures
        tent_mass(radius, at, at - radius, at + radius + 1) == (radius + 1) * (radius + 1),
    decreases radius,
{
    let w = tent(radius, at);
    if radius == 0 {
        assert(sum_over(w, at, at + 1) == sum_over(w, at, at) + w(at));
    } else {
        let inner = tent(radius - 1, at);
        lemma_tent_mass_full(radius - 1, at);
        lemma_sum_first(w, at - radius, at + radius + 1);
        assert forall|j: int| at - radius + 1 <= j < at + radius implies #[trigger] w(j) == inner(j)
            + unit()(j) by {}
        lemma_sum_add(w, inner, unit(), at - radius + 1, at + radius);
        lemma_sum_unit(at - radius + 1, at + radius);
        assert((radius + 1) * (radius + 1) == radius * radius + (2 * radius - 1) + 2)
            by (nonlinear_arith);
    }
}

/// Moving a triangular window one step to the right changes the sum of its
/// weights over a fixed range by the number of positions at and right of its
/// new centre, less the number left of it.
pub proof fn lemma_tent_mass_step(radius: int, at: int, from: int, to: int)
    requires
        radius >= 0,
    ensures
        tent_mass(radius, at, from, to) - tent_mass(radius, at - 1, from, to) == sum_over(
            unit(),
            larger(from, at),
            smaller(to, at + radius + 1),
        ) - sum_over(unit(), larger(from, at - radius - 1), smaller(to, at)),
{
    lemma_tent_step(unit(), radius, at, from, to);
    lemma_sum_agree(weighted(unit(), tent(radius, at)), tent(radius, at), from, to);
    lemma_sum_agree(weighted(unit(), tent(radius, at - 1)), tent(radius, at - 1), from, to);
}

/// A triangular window weighs nothing beyond its radius: over a whole line
/// it sums to what it sums to over its part inside the line.
pub proof fn lemma_tent_inside(line: Seq<u8>, radius: int, at: int)
    requires
        radius >= 0,
        0 <= at < line.len(),
    ensures
        tent_sum(line, radius, at, 0, line.len() as int) == tent_sum(
            line,
            radius,
            at,
            window_start(at, radius),
            window_end(at, radius, line.len() as int),
        ),
        tent_mass(radius, at, 0, line.len() as int) == tent_mass(
            radius,
            at,
            window_start(at, radius),
            window_end(at, radius, line.len() as int),
        ),
{
    let len = line.len() as int;
    let lo = window_start(at, radius);
    let hi = window_end(at, radius, len);
    let f = weighted(samples(line), tent(radius, at));
    assert forall|j: int| (0 <= j < lo || hi <= j < len) implies #[trigger] f(j) == 0 by {}
    lemma_sum_support(f, 0, lo, hi, len);
    lemma_sum_support(tent(radius, at), 0, lo, hi, len);
}

} // verus!
