//! The sums of the clamped box blur along one line: a window of constant
//! size that reads the nearest end sample where it reaches beyond the line.

use crate::grid::{fetch, line_fits, line_of, on_line, store};
use crate::sums::{lemma_sum_constant, lemma_sum_first, lemma_sum_split};
use crate::window::{
    lemma_span_bounds, lemma_span_uniform, sample, samples, span_sum, window_end, window_start,
};
use vstd::prelude::*;

verus! {

/// The sum of the `2 * radius + 1` samples of the window of `radius` around
/// `at`, each position beyond the line counting as the nearest end sample.
pub open spec fn clamped_sum(line: Seq<u8>, radius: int, at: int) -> int {
    span_sum(line, at - radius, at + radius + 1)
}

/// A clamped sum is at most 255 for each position of the window.
pub proof fn lemma_clamped_sum_bounds(line: Seq<u8>, radius: int, at: int)
    requires
        radius >= 0,
    ensures
        0 <= clamped_sum(line, radius, at) <= 255 * (2 * radius + 1),
{
    lemma_span_bounds(line, at - radius, at + radius + 1);
}

/// At radius zero the clamped sum at a position is the sample there.
pub proof fn lemma_clamped_sum_identity(line: Seq<u8>, at: int)
    requires
        0 <= at < line.len(),
    ensures
        clamped_sum(line, 0, at) == line[at],
{
    assert(span_sum(line, at, at + 1) == span_sum(line, at, at) + sample(line, at));
}

/// On a line of equal samples every clamped sum is the sample taken
/// `2 * radius + 1` times.
pub proof fn lemma_clamped_sum_uniform(line: Seq<u8>, value: int, radius: int, at: int)
    requires
        radius >= 0,
        line.len() > 0,
        forall|k: int| 0 <= k < line.len() ==> line[k] == value,
    ensures
        clamped_sum(line, radius, at) == value * (2 * radius + 1),
{
    lemma_span_uniform(line, value, at - radius, at + radius + 1);
}

/// Where the whole window lies inside the line, the clamped sum is the sum
/// of the samples in the window: the two ways of treating the ends of a line
/// differ near the ends only.
pub proof fn lemma_clamped_sum_inside(line: Seq<u8>, radius: int, at: int)
    requires
        0 <= radius <= at,
        at + radius < line.len(),
    ensures
        clamped_sum(line, radius, at) == span_sum(
            line,
            window_start(at, radius),
            window_end(at, radius, line.len() as int),
        ),
        window_end(at, radius, line.len() as int) - window_start(at, radius) == 2 * radius + 1,
{
}

/// Sums the clamped windows of one line of `src` into the same cells of
/// `dst`.
pub(crate) fn clamped_line(
    src: &Vec<u8>,
    dst: &mut Vec<u64>,
    start: usize,
    stride: usize,
    len: usize,
    radius: usize,
)
    requires
        line_fits(src.len() as int, start as int, stride as int, len as int),
        old(dst).len() == src.len(),
        len <= 0x7fff_ffff,
        radius <= 0x7fff_ffff,
    ensures
        final(dst).len() == src.len(),
        forall|k: int|
            0 <= k < len ==> line_of(final(dst)@, start as int, stride as int, len as int)[k]
                == clamped_sum(
                line_of(src@, start as int, stride as int, len as int),
                radius as int,
                k,
            ),
        forall|i: int|
            0 <= i < src.len() && !on_line(i, start as int, stride as int, len as int)
                ==> final(dst)@[i] == old(dst)@[i],
{
    let ghost line = line_of(src@, start as int, stride as int, len as int);
    let ghost r = radius as int;
    let first: u64 = fetch(src, start, stride, len, 0) as u64;
    let last: u64 = fetch(src, start, stride, len, len - 1) as u64;
    let reach: usize = if radius < len {
        radius
    } else {
        len - 1
    };
    assert(first * radius <= 255 * 0x7fff_ffff) by (nonlinear_arith)
        requires
            first <= 255,
            radius <= 0x7fff_ffff,
    ;
    let mut sum: u64 = first * (radius as u64);
    proof {
        assert forall|p: int| -r <= p < 0 implies #[trigger] samples(line)(p) == first by {}
        lemma_sum_constant(samples(line), -r, 0, first as int);
    }
    let mut j: usize = 0;
    while j <= reach
        invariant
            0 <= j <= reach + 1,
            reach < len <= 0x7fff_ffff,
            radius <= 0x7fff_ffff,
            r == radius,
            line == line_of(src@, start as int, stride as int, len as int),
            line_fits(src.len() as int, start as int, stride as int, len as int),
            sum == span_sum(line, -r, j as int),
        decreases reach + 1 - j,
    {
        let entering: u8 = fetch(src, start, stride, len, j);
        proof {
            lemma_span_bounds(line, -r, j as int);
        }
        sum = sum + entering as u64;
        j = j + 1;
    }
    proof {
        assert forall|p: int| reach + 1 <= p < r + 1 implies #[trigger] samples(line)(p)
            == last by {}
        lemma_sum_constant(samples(line), reach + 1, r + 1, last as int);
        lemma_sum_split(samples(line), -r, reach + 1, r + 1);
        lemma_span_bounds(line, -r, reach + 1);
        assert(last * (radius - reach) <= 255 * 0x7fff_ffff) by (nonlinear_arith)
            requires
                last <= 255,
                0 <= radius - reach <= 0x7fff_ffff,
        ;
    }
    sum = sum + last * ((radius - reach) as u64);
    store(dst, start, stride, len, 0, sum);
    let mut k: usize = 1;
    while k < len
        invariant
            1 <= k <= len <= 0x7fff_ffff,
            radius <= 0x7fff_ffff,
            r == radius,
            line == line_of(src@, start as int, stride as int, len as int),
            line_fits(src.len() as int, start as int, stride as int, len as int),
            dst.len() == src.len(),
            old(dst).len() == src.len(),
            first == line[0],
            last == line[len - 1],
            sum == clamped_sum(line, r, k - 1),
            forall|p: int|
                0 <= p < k ==> line_of(dst@, start as int, stride as int, len as int)[p]
                    == clamped_sum(line, r, p),
            forall|i: int|
                0 <= i < src.len() && !on_line(i, start as int, stride as int, len as int)
                    ==> dst@[i] == old(dst)@[i],
        decreases len - k,
    {
        let leaving: u64 = if k > radius {
            fetch(src, start, stride, len, k - radius - 1) as u64
        } else {
            first
        };
        let entering: u64 = if radius < len - k {
            fetch(src, start, stride, len, k + radius) as u64
        } else {
            last
        };
        proof {
            lemma_sum_first(samples(line), k - 1 - r, k + r);
            lemma_span_bounds(line, k - r, k + r);
        }
        sum = sum - leaving + entering;
        store(dst, start, stride, len, k, sum);
        k = k + 1;
    }
}

} // verus!
