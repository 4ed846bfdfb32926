//! The classic stack blur along one line: a triangular window that reads
//! the nearest end sample where it reaches beyond the line, scaled by the
//! tables in place of a division.

use crate::grid::{fetch, line_fits, line_of, on_line, store};
use crate::sums::{lemma_sum_constant, lemma_sum_first, lemma_sum_split, sum_over, weighted};
use crate::tables::{
    divides_evenly, lemma_scaled_bounds, lemma_scaled_identity, lemma_scaled_uniform, scale,
    scaled,
};
use crate::window::{
    lemma_span_bounds, lemma_tent_bounds, lemma_tent_mass_full, lemma_tent_step,
    lemma_tent_uniform, sample, samples, span_sum, tent, tent_mass, tent_sum, window_end,
    window_start,
};
use vstd::prelude::*;

verus! {

/// The weighted sum of the whole triangular window of `radius` around `at`.
pub open spec fn clamped_tent_sum(line: Seq<u8>, radius: int, at: int) -> int {
    tent_sum(line, radius, at, at - radius, at + radius + 1)
}

/// The sample that the classic stack blur puts at `at`.
pub open spec fn table_mean(line: Seq<u8>, radius: int, at: int) -> int {
    scaled(clamped_tent_sum(line, radius, at), radius)
}

/// The weighted sum of a whole window is at most 255 times the square of
/// `radius + 1`.
pub proof fn lemma_clamped_tent_bounds(line: Seq<u8>, radius: int, at: int)
    requires
        radius >= 0,
    ensures
        0 <= clamped_tent_sum(line, radius, at) <= 255 * ((radius + 1) * (radius + 1)),
{
    lemma_tent_bounds(line, radius, at, at - radius, at + radius + 1);
    lemma_tent_mass_full(radius, at);
}

/// What the classic stack blur computes lies between 0 and 255.
pub proof fn lemma_table_mean_bounds(line: Seq<u8>, radius: int, at: int)
    requires
        radius >= 0,
    ensures
        0 <= table_mean(line, radius, at) <= 255,
{
    lemma_clamped_tent_bounds(line, radius, at);
    lemma_scaled_bounds(clamped_tent_sum(line, radius, at), radius);
}

/// Up to the last radius of the tables, the weighted sum of a whole window
/// is at most 255 times 65536.
pub proof fn lemma_clamped_tent_small(line: Seq<u8>, radius: int, at: int)
    requires
        0 <= radius <= 255,
    ensures
        0 <= clamped_tent_sum(line, radius, at) <= 255 * 65536,
{
    lemma_clamped_tent_bounds(line, radius, at);
    assert((radius + 1) * (radius + 1) <= 65536) by (nonlinear_arith)
        requires
            0 <= radius <= 255,
    ;
}

/// The window one step to the right weighs what the window before it did,
/// more the `radius + 1` samples from its centre on, less the `radius + 1`
/// samples before its centre.
pub proof fn lemma_clamped_tent_step(line: Seq<u8>, radius: int, at: int)
    requires
        radius >= 0,
    ensures
        clamped_tent_sum(line, radius, at) == clamped_tent_sum(line, radius, at - 1) + span_sum(
            line,
            at,
            at + radius + 1,
        ) - span_sum(line, at - radius - 1, at),
{
    let here = weighted(samples(line), tent(radius, at));
    let before = weighted(samples(line), tent(radius, at - 1));
    lemma_tent_step(samples(line), radius, at, at - radius - 1, at + radius + 1);
    lemma_sum_first(here, at - radius - 1, at + radius + 1);
}

/// The classic stack blur leaves every sample as it is at radius zero.
pub proof fn lemma_table_mean_identity(line: Seq<u8>, at: int)
    requires
        0 <= at < line.len(),
    ensures
        table_mean(line, 0, at) == line[at],
{
    let f = weighted(samples(line), tent(0, at));
    assert(sum_over(f, at, at + 1) == sum_over(f, at, at) + f(at));
    assert(f(at) == sample(line, at) * 1);
    lemma_scaled_identity(line[at] as int);
}

/// Where the tables divide evenly, the classic stack blur leaves a line of
/// equal samples as it is.
pub proof fn lemma_table_mean_uniform(line: Seq<u8>, value: int, radius: int, at: int)
    requires
        line.len() > 0,
        forall|k: int| 0 <= k < line.len() ==> line[k] == value,
        0 <= radius <= 255,
        divides_evenly(radius),
    ensures
        table_mean(line, radius, at) == value,
{
    lemma_tent_uniform(line, value, radius, at, at - radius, at + radius + 1);
    lemma_tent_mass_full(radius, at);
    lemma_scaled_uniform(value, radius);
}

/// Where the whole window lies inside the line, its weighted sum is the one
/// that the stack blur divides by the weights: the two filters differ there
/// in how they divide only.
pub proof fn lemma_clamped_tent_inside(line: Seq<u8>, radius: int, at: int)
    requires
        0 <= radius <= at,
        at + radius < line.len(),
    ensures
        clamped_tent_sum(line, radius, at) == tent_sum(
            line,
            radius,
            at,
            window_start(at, radius),
            window_end(at, radius, line.len() as int),
        ),
        tent_mass(
            radius,
            at,
            window_start(at, radius),
            window_end(at, radius, line.len() as int),
        ) == (radius + 1) * (radius + 1),
{
    lemma_tent_mass_full(radius, at);
}

/// Reads the line at `j`, or at the nearest end where `j` lies behind the
/// line.
fn fetch_clipped(band: &Vec<u8>, start: usize, stride: usize, len: usize, j: usize) -> (value: u64)
    requires
        line_fits(band.len() as int, start as int, stride as int, len as int),
    ensures
        value == sample(line_of(band@, start as int, stride as int, len as int), j as int),
{
    if j < len {
        fetch(band, start, stride, len, j) as u64
    } else {
        fetch(band, start, stride, len, len - 1) as u64
    }
}

/// Blurs one line of `src` into the same cells of `dst`.
pub(crate) fn table_line(
    src: &Vec<u8>,
    dst: &mut Vec<u8>,
    start: usize,
    stride: usize,
    len: usize,
    radius: usize,
)
    requires
        line_fits(src.len() as int, start as int, stride as int, len as int),
        old(dst).len() == src.len(),
        len <= 0x7fff_ffff,
        radius <= 255,
    ensures
        final(dst).len() == src.len(),
        forall|k: int|
            0 <= k < len ==> line_of(final(dst)@, start as int, stride as int, len as int)[k]
                == table_mean(
                line_of(src@, start as int, stride as int, len as int),
                radius as int,
                k,
            ),
        forall|i: int|
            0 <= i < src.len() && !on_line(i, start as int, stride as int, len as int)
                ==> final(dst)@[i] == old(dst)@[i],
{
    let ghost line = line_of(src@, start as int, stride as int, len as int);
    let ghost r = radius as int;
    let first: u64 = fetch(src, start, stride, len, 0) as u64;
    let mut sum: u64 = 0;
    let mut j: usize = 1;
    while j <= radius + 1
        invariant
            1 <= j <= radius + 2,
            radius <= 255,
            r == radius,
            line.len() == len,
            len >= 1,
            first == line[0],
            sum == tent_sum(line, r, 0, -r, j - 1 - r),
            sum <= 255 * 65536,
        decreases radius + 2 - j,
    {
        proof {
            lemma_tent_bounds(line, r, 0, j - r, r + 1);
            lemma_sum_split(weighted(samples(line), tent(r, 0)), -r, j - r, r + 1);
            lemma_clamped_tent_small(line, r, 0);
            assert(first * j <= 255 * 256) by (nonlinear_arith)
                requires
                    first <= 255,
                    j <= 256,
            ;
        }
        sum = sum + first * (j as u64);
        j = j + 1;
    }
    assert(first * (radius + 1) <= 255 * 256) by (nonlinear_arith)
        requires
            first <= 255,
            radius <= 255,
    ;
    let mut incoming: u64 = first;
    let mut outgoing: u64 = first * (radius as u64 + 1);
    proof {
        assert(span_sum(line, 0, 1) == span_sum(line, 0, 0) + sample(line, 0));
        assert forall|p: int| -r - 1 <= p < 0 implies #[trigger] samples(line)(p) == first by {}
        lemma_sum_constant(samples(line), -r - 1, 0, first as int);
    }
    j = 1;
    while j <= radius
        invariant
            1 <= j <= radius + 1,
            radius <= 255,
            r == radius,
            line == line_of(src@, start as int, stride as int, len as int),
            line_fits(src.len() as int, start as int, stride as int, len as int),
            sum == tent_sum(line, r, 0, -r, j as int),
            incoming == span_sum(line, 0, j as int),
        decreases radius + 1 - j,
    {
        let entering = fetch_clipped(src, start, stride, len, j);
        proof {
            lemma_tent_bounds(line, r, 0, j + 1, r + 1);
            lemma_sum_split(weighted(samples(line), tent(r, 0)), -r, j + 1, r + 1);
            lemma_clamped_tent_small(line, r, 0);
            lemma_span_bounds(line, 0, j + 1);
            assert(entering * (radius + 1 - j) <= 255 * 256) by (nonlinear_arith)
                requires
                    entering <= 255,
                    0 <= radius + 1 - j <= 256,
            ;
        }
        incoming = incoming + entering;
        sum = sum + entering * ((radius - j + 1) as u64);
        j = j + 1;
    }
    proof {
        lemma_clamped_tent_small(line, r, 0);
    }
    store(dst, start, stride, len, 0, scale(sum, radius));
    let mut k: usize = 1;
    while k < len
        invariant
            1 <= k <= len,
            len <= 0x7fff_ffff,
            radius <= 255,
            r == radius,
            line == line_of(src@, start as int, stride as int, len as int),
            line_fits(src.len() as int, start as int, stride as int, len as int),
            dst.len() == src.len(),
            old(dst).len() == src.len(),
            first == line[0],
            sum == clamped_tent_sum(line, r, k - 1),
            incoming == span_sum(line, k - 1, k + r),
            outgoing == span_sum(line, k - r - 2, k - 1),
            forall|p: int|
                0 <= p < k ==> line_of(dst@, start as int, stride as int, len as int)[p]
                    == table_mean(line, r, p),
            forall|i: int|
                0 <= i < src.len() && !on_line(i, start as int, stride as int, len as int)
                    ==> dst@[i] == old(dst)@[i],
        decreases len - k,
    {
        let leaving: u64 = if k > radius + 1 {
            fetch(src, start, stride, len, k - radius - 2) as u64
        } else {
            first
        };
        let entering = fetch_clipped(src, start, stride, len, k + radius);
        let previous: u64 = fetch(src, start, stride, len, k - 1) as u64;
        proof {
            lemma_sum_first(samples(line), k - r - 2, k - 1);
            lemma_sum_first(samples(line), k - 1, k + r + 1);
            lemma_span_bounds(line, k - r - 1, k - 1);
            lemma_span_bounds(line, k as int, k + r + 1);
            lemma_clamped_tent_step(line, r, k as int);
            lemma_clamped_tent_small(line, r, k as int);
        }
        outgoing = outgoing - leaving + previous;
        incoming = incoming + entering - previous;
        sum = sum + incoming - outgoing;
        store(dst, start, stride, len, k, scale(sum, radius));
        k = k + 1;
    }
}

} // verus!
