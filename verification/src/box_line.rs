//! The box blur along one line: the plain mean of a window that shrinks at
//! the ends of the line, kept up to date from one position to the next.

use crate::grid::{fetch, line_fits, line_of, on_line, store};
use crate::sums::{lemma_mean_bounds, lemma_mean_of_equals, lemma_sum_first};
use crate::window::{
    lemma_span_bounds, lemma_span_uniform, sample, samples, span_sum, window_end, window_start,
};
use vstd::prelude::*;

verus! {

/// The number of samples inside the line in the window of `radius` around
/// `at`.
pub open spec fn window_count(len: int, radius: int, at: int) -> int {
    window_end(at, radius, len) - window_start(at, radius)
}

/// The sum of those samples.
pub open spec fn window_sum(line: Seq<u8>, radius: int, at: int) -> int {
    span_sum(line, window_start(at, radius), window_end(at, radius, line.len() as int))
}

/// The sample that the box blur puts at `at`: the mean, rounded down, of
/// the samples inside the line in the window of `radius` around `at`.
pub open spec fn box_mean(line: Seq<u8>, radius: int, at: int) -> int {
    window_sum(line, radius, at) / window_count(line.len() as int, radius, at)
}

/// A window around a position of the line holds that position: it is
/// never empty, whatever the radius.
pub proof fn lemma_window_count_positive(len: int, radius: int, at: int)
    requires
        radius >= 0,
        0 <= at < len,
    ensures
        1 <= window_count(len, radius, at) <= len,
        window_start(at, radius) <= at < window_end(at, radius, len),
{
}

/// The mean of samples is a sample's value: between 0 and 255.
pub proof fn lemma_box_mean_bounds(line: Seq<u8>, radius: int, at: int)
    requires
        radius >= 0,
        0 <= at < line.len(),
    ensures
        0 <= window_sum(line, radius, at) <= 255 * window_count(line.len() as int, radius, at),
        0 <= box_mean(line, radius, at) <= 255,
{
    let len = line.len() as int;
    lemma_span_bounds(line, window_start(at, radius), window_end(at, radius, len));
    lemma_mean_bounds(window_sum(line, radius, at), window_count(len, radius, at), 255);
}

/// The box blur leaves every sample as it is at radius zero.
pub proof fn lemma_box_mean_identity(line: Seq<u8>, at: int)
    requires
        0 <= at < line.len(),
    ensures
        box_mean(line, 0, at) == line[at],
{
    assert(span_sum(line, at, at + 1) == span_sum(line, at, at) + sample(line, at));
    assert(window_count(line.len() as int, 0, at) == 1);
}

/// On a line of one sample every window holds that sample alone.
pub proof fn lemma_box_mean_single(line: Seq<u8>, radius: int)
    requires
        radius >= 0,
        line.len() == 1,
    ensures
        box_mean(line, radius, 0) == line[0],
{
    assert(window_start(0, radius) == 0 && window_end(0, radius, 1) == 1);
    assert(span_sum(line, 0, 1) == span_sum(line, 0, 0) + sample(line, 0));
}

/// The box blur leaves a line of equal samples as it is.
pub proof fn lemma_box_mean_uniform(line: Seq<u8>, value: int, radius: int, at: int)
    requires
        radius >= 0,
        0 <= at < line.len(),
        forall|k: int| 0 <= k < line.len() ==> line[k] == value,
    ensures
        box_mean(line, radius, at) == value,
{
    let len = line.len() as int;
    lemma_span_uniform(line, value, window_start(at, radius), window_end(at, radius, len));
    lemma_mean_of_equals(value, window_count(len, radius, at));
}

/// Blurs one line of `src` into the same cells of `dst`.
pub(crate) fn box_line(
    src: &Vec<u8>,
    dst: &mut Vec<u8>,
    start: usize,
    stride: usize,
    len: usize,
    radius: usize,
)
    requires
        line_fits(src.len() as int, start as int, stride as int, len as int),
        old(dst).len() == src.len(),
        len <= 0x7fff_ffff,
        radius <= 0x7fff_ffff,
    ensures
        final(dst).len() == src.len(),
        forall|k: int|
            0 <= k < len ==> line_of(final(dst)@, start as int, stride as int, len as int)[k]
                == box_mean(
                line_of(src@, start as int, stride as int, len as int),
                radius as int,
                k,
            ),
        forall|i: int|
            0 <= i < src.len() && !on_line(i, start as int, stride as int, len as int)
                ==> final(dst)@[i] == old(dst)@[i],
{
    let ghost line = line_of(src@, start as int, stride as int, len as int);
    let ghost r = radius as int;
    let reach: usize = if radius < len {
        radius
    } else {
        len - 1
    };
    let mut sum: u64 = 0;
    let mut j: usize = 0;
    while j <= reach
        invariant
            0 <= j <= reach + 1,
            reach < len <= 0x7fff_ffff,
            line == line_of(src@, start as int, stride as int, len as int),
            line_fits(src.len() as int, start as int, stride as int, len as int),
            sum == span_sum(line, 0, j as int),
        decreases reach + 1 - j,
    {
        let entering: u8 = fetch(src, start, stride, len, j);
        proof {
            lemma_span_bounds(line, 0, j as int);
        }
        sum = sum + entering as u64;
        j = j + 1;
    }
    let mut count: u64 = reach as u64 + 1;
    proof {
        lemma_box_mean_bounds(line, r, 0);
    }
    store(dst, start, stride, len, 0, (sum / count) as u8);
    let mut k: usize = 1;
    while k < len
        invariant
            1 <= k <= len <= 0x7fff_ffff,
            radius <= 0x7fff_ffff,
            r == radius,
            line == line_of(src@, start as int, stride as int, len as int),
            line_fits(src.len() as int, start as int, stride as int, len as int),
            dst.len() == src.len(),
            old(dst).len() == src.len(),
            sum == window_sum(line, r, k - 1),
            count == window_count(len as int, r, k - 1),
            forall|p: int|
                0 <= p < k ==> line_of(dst@, start as int, stride as int, len as int)[p]
                    == box_mean(line, r, p),
            forall|i: int|
                0 <= i < src.len() && !on_line(i, start as int, stride as int, len as int)
                    ==> dst@[i] == old(dst)@[i],
        decreases len - k,
    {
        proof {
            lemma_span_bounds(line, window_start(k as int, r), window_end(k - 1, r, len as int));
            lemma_box_mean_bounds(line, r, k as int);
        }
        if k > radius {
            let leaving: u8 = fetch(src, start, stride, len, k - radius - 1);
            proof {
                lemma_sum_first(samples(line), k - 1 - r, window_end(k - 1, r, len as int));
            }
            sum = sum - leaving as u64;
            count = count - 1;
        }
        if radius < len - k {
            let entering: u8 = fetch(src, start, stride, len, k + radius);
            sum = sum + entering as u64;
            count = count + 1;
        }
        store(dst, start, stride, len, k, (sum / count) as u8);
        k = k + 1;
    }
}

} // verus!
