//! The square window of the plain box blur: the samples of a band at most
//! `radius` rows and `radius` columns away from a cell, as far as they lie
//! inside the band.

use crate::box_line::window_count;
use crate::grid::{fetch, lemma_cell, lemma_cell_of, row_of};
use crate::sums::{
    lemma_mean_bounds, lemma_mean_of_equals, lemma_sum_bounds, lemma_sum_constant, sum_over,
};
use crate::window::{
    lemma_span_bounds, lemma_span_uniform, sample, span_sum, window_end, window_start,
};
use vstd::prelude::*;

verus! {

/// For each row, the sum of its samples from column `left` up to, and
/// without, column `right`.
pub open spec fn row_sums(band: Seq<u8>, width: int, left: int, right: int) -> spec_fn(int) -> int {
    |row: int| span_sum(row_of(band, width, row), left, right)
}

/// The sum of the samples in the rows from `top` up to, and without,
/// `bottom`, and in the columns from `left` up to, and without, `right`.
pub open spec fn area_sum(
    band: Seq<u8>,
    width: int,
    top: int,
    bottom: int,
    left: int,
    right: int,
) -> int {
    sum_over(row_sums(band, width, left, right), top, bottom)
}

/// The number of cells inside the band in the square window of `radius`
/// around the cell of `row` and `column`.
pub open spec fn area_count(width: int, height: int, radius: int, row: int, column: int) -> int {
    window_count(height, radius, row) * window_count(width, radius, column)
}

/// The sum of the samples in those cells.
pub open spec fn area_total(
    band: Seq<u8>,
    width: int,
    height: int,
    radius: int,
    row: int,
    column: int,
) -> int {
    area_sum(
        band,
        width,
        window_start(row, radius),
        window_end(row, radius, height),
        window_start(column, radius),
        window_end(column, radius, width),
    )
}

/// The sample that the plain box blur puts at `row` and `column`: the mean,
/// rounded down, of the samples inside the band in the square window.
pub open spec fn area_mean(
    band: Seq<u8>,
    width: int,
    height: int,
    radius: int,
    row: int,
    column: int,
) -> int {
    area_total(band, width, height, radius, row, column) / area_count(
        width,
        height,
        radius,
        row,
        column,
    )
}

/// The band that the plain box blur returns.
pub open spec fn box_blurred(band: Seq<u8>, width: int, height: int, radius: int) -> Seq<u8> {
    Seq::new(
        band.len(),
        |i: int| area_mean(band, width, height, radius, i / width, i % width) as u8,
    )
}

/// A sum over an area is at most 255 for each of its cells.
pub proof fn lemma_area_sum_bounds(
    band: Seq<u8>,
    width: int,
    top: int,
    bottom: int,
    left: int,
    right: int,
)
    requires
        top <= bottom,
        left <= right,
    ensures
        0 <= area_sum(band, width, top, bottom, left, right) <= 255 * ((bottom - top) * (right
            - left)),
{
    let f = row_sums(band, width, left, right);
    assert forall|row: int| top <= row < bottom implies 0 <= #[trigger] f(row) <= 255 * (right
        - left) by {
        lemma_span_bounds(row_of(band, width, row), left, right);
    }
    lemma_sum_bounds(f, top, bottom, 0, 255 * (right - left));
    assert(255 * (right - left) * (bottom - top) == 255 * ((bottom - top) * (right - left)))
        by (nonlinear_arith);
}

/// The square window around a cell of the band holds that cell: it is never
/// empty, whatever the radius, and the mean divides by at least one.
pub proof fn lemma_area_count_positive(width: int, height: int, radius: int, row: int, column: int)
    requires
        radius >= 0,
        0 <= row < height,
        0 <= column < width,
    ensures
        1 <= area_count(width, height, radius, row, column) <= width * height,
{
    let a = window_count(height, radius, row);
    let b = window_count(width, radius, column);
    assert(1 <= a * b <= width * height) by (nonlinear_arith)
        requires
            1 <= a <= height,
            1 <= b <= width,
    ;
}

/// The mean over a square window is a sample's value: between 0 and 255.
pub proof fn lemma_area_mean_bounds(
    band: Seq<u8>,
    width: int,
    height: int,
    radius: int,
    row: int,
    column: int,
)
    requires
        radius >= 0,
        0 <= row < height,
        0 <= column < width,
    ensures
        0 <= area_total(band, width, height, radius, row, column) <= 255 * area_count(
            width,
            height,
            radius,
            row,
            column,
        ),
        0 <= area_mean(band, width, height, radius, row, column) <= 255,
{
    lemma_area_count_positive(width, height, radius, row, column);
    lemma_area_sum_bounds(
        band,
        width,
        window_start(row, radius),
        window_end(row, radius, height),
        window_start(column, radius),
        window_end(column, radius, width),
    );
    lemma_mean_bounds(
        area_total(band, width, height, radius, row, column),
        area_count(width, height, radius, row, column),
        255,
    );
}

/// At radius zero the window is the cell alone, and its mean the sample
/// there.
pub proof fn lemma_area_mean_identity(
    band: Seq<u8>,
    width: int,
    height: int,
    row: int,
    column: int,
)
    requires
        0 <= row < height,
        0 <= column < width,
        band.len() == width * height,
    ensures
        area_mean(band, width, height, 0, row, column) == band[row * width + column],
{
    let f = row_sums(band, width, column, column + 1);
    let line = row_of(band, width, row);
    assert(sum_over(f, row, row + 1) == sum_over(f, row, row) + f(row));
    assert(span_sum(line, column, column + 1) == span_sum(line, column, column) + sample(
        line,
        column,
    ));
    assert(area_count(width, height, 0, row, column) == 1) by (nonlinear_arith)
        requires
            window_count(height, 0, row) == 1,
            window_count(width, 0, column) == 1,
            area_count(width, height, 0, row, column) == window_count(height, 0, row)
                * window_count(width, 0, column),
    ;
}

/// Over a band whose samples all equal `value`, every mean is `value`.
pub proof fn lemma_area_mean_uniform(
    band: Seq<u8>,
    value: int,
    width: int,
    height: int,
    radius: int,
    row: int,
    column: int,
)
    requires
        radius >= 0,
        0 <= row < height,
        0 <= column < width,
        band.len() == width * height,
        forall|i: int| 0 <= i < band.len() ==> band[i] == value,
    ensures
        area_mean(band, width, height, radius, row, column) == value,
{
    let top = window_start(row, radius);
    let bottom = window_end(row, radius, height);
    let left = window_start(column, radius);
    let right = window_end(column, radius, width);
    let f = row_sums(band, width, left, right);
    lemma_area_count_positive(width, height, radius, row, column);
    assert(band[0] == value);
    assert forall|y: int| top <= y < bottom implies #[trigger] f(y) == value * (right - left) by {
        let line = row_of(band, width, y);
        assert forall|k: int| 0 <= k < line.len() implies line[k] == value by {
            lemma_cell(width, height, y, k);
        }
        lemma_span_uniform(line, value, left, right);
    }
    lemma_sum_constant(f, top, bottom, value * (right - left));
    assert(value * (right - left) * (bottom - top) == value * ((bottom - top) * (right - left)))
        by (nonlinear_arith);
    lemma_mean_of_equals(value, area_count(width, height, radius, row, column));
}

/// Sums the samples of an area of the band, row by row.
pub(crate) fn sum_area(
    band: &Vec<u8>,
    width: usize,
    height: usize,
    top: usize,
    bottom: usize,
    left: usize,
    right: usize,
) -> (total: u128)
    requires
        1 <= width <= 0x7fff_ffff,
        1 <= height <= 0x7fff_ffff,
        band.len() == width * height,
        top <= bottom <= height,
        left <= right <= width,
    ensures
        total == area_sum(
            band@,
            width as int,
            top as int,
            bottom as int,
            left as int,
            right as int,
        ),
{
    let mut total: u128 = 0;
    let mut y: usize = top;
    while y < bottom
        invariant
            top <= y <= bottom <= height <= 0x7fff_ffff,
            left <= right <= width <= 0x7fff_ffff,
            1 <= width,
            band.len() == width * height,
            total == area_sum(
                band@,
                width as int,
                top as int,
                y as int,
                left as int,
                right as int,
            ),
        decreases bottom - y,
    {
        proof {
            lemma_cell(width as int, height as int, y as int, width - 1);
        }
        let start: usize = y * width;
        let ghost line = row_of(band@, width as int, y as int);
        let mut along: u64 = 0;
        let mut x: usize = left;
        while x < right
            invariant
                left <= x <= right <= width <= 0x7fff_ffff,
                start == y * width,
                start + width <= band.len(),
                line == row_of(band@, width as int, y as int),
                along == span_sum(line, left as int, x as int),
            decreases right - x,
        {
            let here: u8 = fetch(band, start, 1, width, x);
            proof {
                lemma_span_bounds(line, left as int, x as int);
            }
            along = along + here as u64;
            x = x + 1;
        }
        proof {
            lemma_area_sum_bounds(
                band@,
                width as int,
                top as int,
                y as int,
                left as int,
                right as int,
            );
            let cells = (y - top) * (right - left);
            assert(0 <= cells <= 0x7fff_ffff * 0x7fff_ffff) by (nonlinear_arith)
                requires
                    cells == (y - top) * (right - left),
                    0 <= y - top <= 0x7fff_ffff,
                    0 <= right - left <= 0x7fff_ffff,
            ;
        }
        total = total + along as u128;
        y = y + 1;
    }
    total
}

/// Each sample of the blurred band is the mean over its square window,
/// stored without loss: no mean leaves the range of a sample.
pub proof fn lemma_box_blurred_cell(band: Seq<u8>, width: int, height: int, radius: int, i: int)
    requires
        0 < width,
        0 < height,
        0 <= radius,
        band.len() == width * height,
        0 <= i < band.len(),
    ensures
        box_blurred(band, width, height, radius)[i] == area_mean(
            band,
            width,
            height,
            radius,
            i / width,
            i % width,
        ),
{
    lemma_cell_of(width, height, i);
    lemma_area_mean_bounds(band, width, height, radius, i / width, i % width);
}

} // verus!
