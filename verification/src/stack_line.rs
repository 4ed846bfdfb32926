//! The stack blur along one line: a triangular window that shrinks at the
//! ends of the line, its weighted sum divided by the weights inside the line.

use crate::grid::{fetch, line_fits, line_of, on_line, store};
use crate::sums::{
    lemma_mean_bounds, lemma_mean_of_equals, lemma_sum_bounds, lemma_sum_first, lemma_sum_unit,
    sum_over, weighted,
};
use crate::window::{
    larger, lemma_span_bounds, lemma_tent_bounds, lemma_tent_inside, lemma_tent_mass_bounds,
    lemma_tent_mass_step, lemma_tent_step, lemma_tent_uniform, sample, samples, span_sum, tent,
    tent_mass, tent_sum, window_end, window_start,
};
use vstd::prelude::*;

verus! {

/// The weighted sum of the part inside the line of the triangular window of
/// `radius` around `at`.
pub open spec fn stack_sum(line: Seq<u8>, radius: int, at: int) -> int {
    tent_sum(
        line,
        radius,
        at,
        window_start(at, radius),
        window_end(at, radius, line.len() as int),
    )
}

/// The sum of the weights of that part.
pub open spec fn stack_mass(len: int, radius: int, at: int) -> int {
    tent_mass(radius, at, window_start(at, radius), window_end(at, radius, len))
}

/// The sample that the stack blur puts at `at`: the weighted mean of the
/// part of the window inside the line.
pub open spec fn stack_mean(line: Seq<u8>, radius: int, at: int) -> int {
    stack_sum(line, radius, at) / stack_mass(line.len() as int, radius, at)
}

/// The weights inside the line never sum to zero: the centre alone weighs
/// `radius + 1`. They sum to at most `radius + 1` for each sample of the line.
pub proof fn lemma_stack_mass_bounds(len: int, radius: int, at: int)
    requires
        radius >= 0,
        0 <= at < len,
    ensures
        radius + 1 <= stack_mass(len, radius, at) <= (radius + 1) * len,
{
    let lo = window_start(at, radius);
    let hi = window_end(at, radius, len);
    lemma_tent_mass_bounds(radius, at, lo, hi);
    assert((radius + 1) * (hi - lo) <= (radius + 1) * len) by (nonlinear_arith)
        requires
            radius >= 0,
            hi - lo <= len,
    ;
}

/// The weighted mean of samples is a sample's value: between 0 and 255.
pub proof fn lemma_stack_mean_bounds(line: Seq<u8>, radius: int, at: int)
    requires
        radius >= 0,
        0 <= at < line.len(),
    ensures
        0 <= stack_sum(line, radius, at) <= 255 * stack_mass(line.len() as int, radius, at),
        0 <= stack_mean(line, radius, at) <= 255,
{
    let len = line.len() as int;
    lemma_stack_mass_bounds(len, radius, at);
    lemma_tent_bounds(line, radius, at, window_start(at, radius), window_end(at, radius, len));
    lemma_mean_bounds(stack_sum(line, radius, at), stack_mass(len, radius, at), 255);
}

/// The stack blur leaves every sample as it is at radius zero.
pub proof fn lemma_stack_mean_identity(line: Seq<u8>, at: int)
    requires
        0 <= at < line.len(),
    ensures
        stack_mean(line, 0, at) == line[at],
{
    let f = weighted(samples(line), tent(0, at));
    assert(sum_over(f, at, at + 1) == sum_over(f, at, at) + f(at));
    assert(f(at) == sample(line, at) * 1);
    assert(sum_over(tent(0, at), at, at + 1) == sum_over(tent(0, at), at, at) + tent(0, at)(at));
    assert(stack_mass(line.len() as int, 0, at) == 1);
}

/// The stack blur leaves a line of equal samples as it is.
pub proof fn lemma_stack_mean_uniform(line: Seq<u8>, value: int, radius: int, at: int)
    requires
        radius >= 0,
        0 <= at < line.len(),
        forall|k: int| 0 <= k < line.len() ==> line[k] == value,
    ensures
        stack_mean(line, radius, at) == value,
{
    let len = line.len() as int;
    lemma_tent_uniform(
        line,
        value,
        radius,
        at,
        window_start(at, radius),
        window_end(at, radius, len),
    );
    lemma_stack_mass_bounds(len, radius, at);
    lemma_mean_of_equals(value, stack_mass(len, radius, at));
}

/// The window one step to the right weighs what the window before it did,
/// more the samples inside the line from its centre on, less those before
/// its centre; and its weights change by the numbers of those samples.
pub proof fn lemma_stack_step(line: Seq<u8>, radius: int, at: int)
    requires
        radius >= 0,
        1 <= at < line.len(),
    ensures
        stack_sum(line, radius, at) == stack_sum(line, radius, at - 1) + span_sum(
            line,
            at,
            window_end(at, radius, line.len() as int),
        ) - span_sum(line, larger(0, at - radius - 1), at),
        stack_mass(line.len() as int, radius, at) == stack_mass(
            line.len() as int,
            radius,
            at - 1,
        ) + (window_end(at, radius, line.len() as int) - at) - (at - larger(0, at - radius - 1)),
{
    let len = line.len() as int;
    lemma_tent_inside(line, radius, at);
    lemma_tent_inside(line, radius, at - 1);
    lemma_tent_step(samples(line), radius, at, 0, len);
    lemma_tent_mass_step(radius, at, 0, len);
    lemma_sum_unit(at, window_end(at, radius, len));
    lemma_sum_unit(larger(0, at - radius - 1), at);
}

/// Blurs one line of `src` into the same cells of `dst`.
pub(crate) fn stack_line(
    src: &Vec<u8>,
    dst: &mut Vec<u8>,
    start: usize,
    stride: usize,
    len: usize,
    radius: usize,
)
    requires
        line_fits(src.len() as int, start as int, stride as int, len as int),
        old(dst).len() == src.len(),
        len <= 0x7fff_ffff,
        radius <= 0x7fff_ffff,
    ensures
        final(dst).len() == src.len(),
        forall|k: int|
            0 <= k < len ==> line_of(final(dst)@, start as int, stride as int, len as int)[k]
                == stack_mean(
                line_of(src@, start as int, stride as int, len as int),
                radius as int,
                k,
            ),
        forall|i: int|
            0 <= i < src.len() && !on_line(i, start as int, stride as int, len as int)
                ==> final(dst)@[i] == old(dst)@[i],
{
    let ghost line = line_of(src@, start as int, stride as int, len as int);
    let ghost r = radius as int;
    let reach: usize = if radius < len {
        radius
    } else {
        len - 1
    };
    let mut stack: u128 = 0;
    let mut mass: u64 = 0;
    let mut incoming: u64 = 0;
    let mut outgoing: u64 = 0;
    let mut j: usize = 0;
    while j <= reach
        invariant
            0 <= j <= reach + 1,
            reach < len <= 0x7fff_ffff,
            reach <= radius <= 0x7fff_ffff,
            r == radius,
            line == line_of(src@, start as int, stride as int, len as int),
            line_fits(src.len() as int, start as int, stride as int, len as int),
            stack == tent_sum(line, r, 0, 0, j as int),
            mass == tent_mass(r, 0, 0, j as int),
            incoming == span_sum(line, 0, j as int),
        decreases reach + 1 - j,
    {
        let entering: u8 = fetch(src, start, stride, len, j);
        let weight: u64 = (radius - j + 1) as u64;
        proof {
            lemma_span_bounds(line, 0, j as int);
            lemma_tent_bounds(line, r, 0, 0, j as int);
            lemma_sum_bounds(tent(r, 0), 0, j as int, 0, r + 1);
            assert((r + 1) * j <= 0x8000_0000 * 0x8000_0000) by (nonlinear_arith)
                requires
                    0 <= r < 0x8000_0000,
                    0 <= j < 0x8000_0000,
            ;
            assert(entering * weight <= 255 * 0x8000_0000) by (nonlinear_arith)
                requires
                    entering <= 255,
                    weight <= 0x8000_0000,
            ;
        }
        incoming = incoming + entering as u64;
        stack = stack + (entering as u128) * (weight as u128);
        mass = mass + weight;
        j = j + 1;
    }
    proof {
        lemma_stack_mean_bounds(line, r, 0);
        lemma_stack_mass_bounds(len as int, r, 0);
    }
    store(dst, start, stride, len, 0, (stack / (mass as u128)) as u8);
    let mut k: usize = 1;
    while k < len
        invariant
            1 <= k <= len <= 0x7fff_ffff,
            radius <= 0x7fff_ffff,
            r == radius,
            line == line_of(src@, start as int, stride as int, len as int),
            line_fits(src.len() as int, start as int, stride as int, len as int),
            dst.len() == src.len(),
            old(dst).len() == src.len(),
            stack == stack_sum(line, r, k - 1),
            mass == stack_mass(len as int, r, k - 1),
            incoming == span_sum(line, k - 1, window_end(k - 1, r, len as int)),
            outgoing == span_sum(line, larger(0, k - r - 2), k - 1),
            forall|p: int|
                0 <= p < k ==> line_of(dst@, start as int, stride as int, len as int)[p]
                    == stack_mean(line, r, p),
            forall|i: int|
                0 <= i < src.len() && !on_line(i, start as int, stride as int, len as int)
                    ==> dst@[i] == old(dst)@[i],
        decreases len - k,
    {
        proof {
            lemma_span_bounds(line, larger(0, k - r - 1), k - 1);
            lemma_span_bounds(line, k as int, window_end(k as int, r, len as int));
            lemma_sum_first(samples(line), k - 1, window_end(k as int, r, len as int));
            lemma_stack_step(line, r, k as int);
            lemma_stack_mean_bounds(line, r, k as int);
            lemma_stack_mass_bounds(len as int, r, k as int);
            assert((r + 1) * len <= 0x8000_0000 * 0x8000_0000) by (nonlinear_arith)
                requires
                    0 <= r < 0x8000_0000,
                    0 <= len < 0x8000_0000,
            ;
        }
        if k > radius + 1 {
            let leaving: u8 = fetch(src, start, stride, len, k - radius - 2);
            proof {
                lemma_sum_first(samples(line), k - r - 2, k - 1);
            }
            outgoing = outgoing - leaving as u64;
        }
        let gained: u64 = if radius < len - k {
            let entering: u8 = fetch(src, start, stride, len, k + radius);
            incoming = incoming + entering as u64;
            radius as u64 + 1
        } else {
            (len - k) as u64
        };
        let lost: u64 = if k > radius {
            radius as u64 + 1
        } else {
            k as u64
        };
        let previous: u8 = fetch(src, start, stride, len, k - 1);
        outgoing = outgoing + previous as u64;
        incoming = incoming - previous as u64;
        stack = stack + incoming as u128 - outgoing as u128;
        mass = mass + gained - lost;
        store(dst, start, stride, len, k, (stack / (mass as u128)) as u8);
        k = k + 1;
    }
}

} // verus!
