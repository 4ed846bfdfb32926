//! The two passes of the clamped box blur. Each pass sums, for every cell,
//! a window of constant size along the cell's row or column; what becomes
//! of a sum is left to a scaling function that the caller hands in.

use crate::clamped_line::{
    clamped_line, clamped_sum, lemma_clamped_sum_bounds, lemma_clamped_sum_identity,
    lemma_clamped_sum_uniform,
};
use crate::grid::{column_of, lemma_cell, lemma_cell_of, lemma_on_column, line_of, row_of};
use crate::separable::is_flat;
use vstd::prelude::*;

verus! {

/// For every cell, the clamped sum along its row.
pub open spec fn clamped_rows(band: Seq<u8>, width: int, height: int, radius: int) -> Seq<u64> {
    Seq::new(
        band.len(),
        |i: int| clamped_sum(row_of(band, width, i / width), radius, i % width) as u64,
    )
}

/// For every cell, the clamped sum along its column.
pub open spec fn clamped_columns(band: Seq<u8>, width: int, height: int, radius: int) -> Seq<u64> {
    Seq::new(
        band.len(),
        |i: int| clamped_sum(column_of(band, width, height, i % width), radius, i / width) as u64,
    )
}

/// The largest sum that a window of `radius` can hold.
pub open spec fn largest_sum(radius: int) -> int {
    255 * (2 * radius + 1)
}

/// Whether `bytes` holds, cell by cell, a value that `scale` may return for
/// the sum in `sums`.
pub open spec fn rescaled<F: Fn(u64) -> u8>(sums: Seq<u64>, bytes: Seq<u8>, scale: F) -> bool {
    &&& bytes.len() == sums.len()
    &&& forall|i: int| 0 <= i < sums.len() ==> call_ensures(scale, (#[trigger] sums[i],), bytes[i])
}

/// No sum of either pass is larger than `largest_sum`.
pub proof fn lemma_clamped_bounds(band: Seq<u8>, width: int, height: int, radius: int, i: int)
    requires
        0 <= radius <= 0x7fff_ffff,
        0 <= i < band.len(),
    ensures
        clamped_rows(band, width, height, radius)[i] <= largest_sum(radius),
        clamped_columns(band, width, height, radius)[i] <= largest_sum(radius),
{
    lemma_clamped_sum_bounds(row_of(band, width, i / width), radius, i % width);
    lemma_clamped_sum_bounds(column_of(band, width, height, i % width), radius, i / width);
}

/// At radius zero the sums of both passes are the samples themselves.
pub proof fn lemma_clamped_identity(band: Seq<u8>, width: int, height: int, i: int)
    requires
        0 < width,
        0 < height,
        band.len() == width * height,
        0 <= i < band.len(),
    ensures
        clamped_rows(band, width, height, 0)[i] == band[i],
        clamped_columns(band, width, height, 0)[i] == band[i],
{
    lemma_cell_of(width, height, i);
    lemma_clamped_sum_identity(row_of(band, width, i / width), i % width);
    lemma_clamped_sum_identity(column_of(band, width, height, i % width), i / width);
}

/// Over a band of equal samples every sum of both passes is the sample
/// taken `2 * radius + 1` times.
pub proof fn lemma_clamped_uniform(band: Seq<u8>, width: int, height: int, radius: int, i: int)
    requires
        0 < width,
        0 < height,
        0 <= radius <= 0x7fff_ffff,
        band.len() == width * height,
        is_flat(band),
        0 <= i < band.len(),
    ensures
        clamped_rows(band, width, height, radius)[i] == band[0] * (2 * radius + 1),
        clamped_columns(band, width, height, radius)[i] == band[0] * (2 * radius + 1),
{
    let value = band[0] as int;
    lemma_cell_of(width, height, i);
    let row = row_of(band, width, i / width);
    assert forall|k: int| 0 <= k < row.len() implies row[k] == value by {
        lemma_cell(width, height, i / width, k);
    }
    lemma_clamped_sum_uniform(row, value, radius, i % width);
    let column = column_of(band, width, height, i % width);
    assert forall|k: int| 0 <= k < column.len() implies column[k] == value by {
        lemma_cell(width, height, k, i % width);
        assert(k * width == width * k) by (nonlinear_arith);
    }
    lemma_clamped_sum_uniform(column, value, radius, i / width);
    lemma_clamped_sum_bounds(row, radius, i % width);
    assert(0 <= value * (2 * radius + 1)) by (nonlinear_arith)
        requires
            0 <= value,
            0 <= radius,
    ;
}

/// Sums the clamped windows along every row of `band`.
pub(crate) fn sum_rows(band: &Vec<u8>, width: usize, height: usize, radius: usize) -> (out: Vec<
    u64,
>)
    requires
        1 <= width <= 0x7fff_ffff,
        1 <= height <= 0x7fff_ffff,
        band.len() == width * height,
        radius <= 0x7fff_ffff,
    ensures
        out@ == clamped_rows(band@, width as int, height as int, radius as int),
{
    let mut out: Vec<u64> = vec![0u64; band.len()];
    let ghost wanted = clamped_rows(band@, width as int, height as int, radius as int);
    let mut row: usize = 0;
    while row < height
        invariant
            0 <= row <= height,
            1 <= width <= 0x7fff_ffff,
            radius <= 0x7fff_ffff,
            band.len() == width * height,
            out.len() == band.len(),
            wanted == clamped_rows(band@, width as int, height as int, radius as int),
            forall|i: int| 0 <= i < row * width && i < band.len() ==> out@[i] == wanted[i],
        decreases height - row,
    {
        proof {
            lemma_cell(width as int, height as int, row as int, width - 1);
        }
        let start: usize = row * width;
        clamped_line(band, &mut out, start, 1, width, radius);
        proof {
            let line = line_of(out@, start as int, 1, width as int);
            assert forall|i: int| 0 <= i < (row + 1) * width && i < band.len() implies out@[i]
                == wanted[i] by {
                assert((row + 1) * width == row * width + width) by (nonlinear_arith);
                if i >= start {
                    let k = i - start;
                    lemma_cell(width as int, height as int, row as int, k);
                    assert(line[k] == out@[start + 1 * k]);
                }
            }
        }
        row = row + 1;
    }
    proof {
        assert(row * width == width * height) by (nonlinear_arith)
            requires
                row == height,
        ;
    }
    out
}

/// Sums the clamped windows along every column of `band`.
pub(crate) fn sum_columns(band: &Vec<u8>, width: usize, height: usize, radius: usize) -> (out:
    Vec<u64>)
    requires
        1 <= width <= 0x7fff_ffff,
        1 <= height <= 0x7fff_ffff,
        band.len() == width * height,
        radius <= 0x7fff_ffff,
    ensures
        out@ == clamped_columns(band@, width as int, height as int, radius as int),
{
    let mut out: Vec<u64> = vec![0u64; band.len()];
    let ghost wanted = clamped_columns(band@, width as int, height as int, radius as int);
    let mut column: usize = 0;
    while column < width
        invariant
            0 <= column <= width <= 0x7fff_ffff,
            1 <= height <= 0x7fff_ffff,
            radius <= 0x7fff_ffff,
            band.len() == width * height,
            out.len() == band.len(),
            wanted == clamped_columns(band@, width as int, height as int, radius as int),
            forall|i: int|
                0 <= i < band.len() && i % (width as int) < column ==> out@[i] == wanted[i],
        decreases width - column,
    {
        proof {
            lemma_cell(width as int, height as int, height - 1, column as int);
            assert(width * (height - 1) == (height - 1) * width) by (nonlinear_arith);
        }
        clamped_line(band, &mut out, column, width, height, radius);
        proof {
            let line = line_of(out@, column as int, width as int, height as int);
            assert forall|i: int|
                0 <= i < band.len() && i % (width as int) < column + 1 implies out@[i]
                == wanted[i] by {
                lemma_on_column(width as int, height as int, column as int, i);
                lemma_cell_of(width as int, height as int, i);
                if i % (width as int) == column {
                    let k = i / (width as int);
                    assert(line[k] == out@[column + width * k]);
                }
            }
        }
        column = column + 1;
    }
    out
}

/// Turns every sum into a sample by `scale`.
pub(crate) fn rescale<F: Fn(u64) -> u8>(sums: &Vec<u64>, scale: &F) -> (out: Vec<u8>)
    requires
        forall|i: int| 0 <= i < sums.len() ==> call_requires(*scale, (#[trigger] sums[i],)),
    ensures
        rescaled(sums@, out@, *scale),
{
    let mut out: Vec<u8> = Vec::with_capacity(sums.len());
    let mut i: usize = 0;
    while i < sums.len()
        invariant
            0 <= i <= sums.len(),
            out.len() == i,
            forall|j: int| 0 <= j < sums.len() ==> call_requires(*scale, (#[trigger] sums[j],)),
            forall|j: int| 0 <= j < i ==> call_ensures(*scale, (#[trigger] sums[j],), out@[j]),
        decreases sums.len() - i,
    {
        let sum: u64 = sums[i];
        let value: u8 = scale(sum);
        out.push(value);
        i = i + 1;
    }
    out
}

/// Whether `scale` makes one value only of every sum.
pub open spec fn single_valued<F: Fn(u64) -> u8>(scale: F) -> bool {
    forall|sum: u64, a: u8, b: u8|
        #[trigger] call_ensures(scale, (sum,), a) && #[trigger] call_ensures(scale, (sum,), b)
            ==> a == b
}

/// With a scaling function that makes one value only of every sum, the two
/// passes have one result only.
pub proof fn lemma_rescaled_agree<F: Fn(u64) -> u8>(
    band: Seq<u8>,
    width: int,
    height: int,
    radius: int,
    scale: F,
    first: Seq<u8>,
    out: Seq<u8>,
    other_first: Seq<u8>,
    other_out: Seq<u8>,
)
    requires
        single_valued(scale),
        rescaled(clamped_rows(band, width, height, radius), first, scale),
        rescaled(clamped_columns(first, width, height, radius), out, scale),
        rescaled(clamped_rows(band, width, height, radius), other_first, scale),
        rescaled(clamped_columns(other_first, width, height, radius), other_out, scale),
    ensures
        first == other_first,
        out == other_out,
{
    let rows = clamped_rows(band, width, height, radius);
    assert forall|i: int| 0 <= i < first.len() implies first[i] == other_first[i] by {
        assert(call_ensures(scale, (rows[i],), first[i]));
    }
    assert(first =~= other_first);
    let columns = clamped_columns(first, width, height, radius);
    assert forall|i: int| 0 <= i < out.len() implies out[i] == other_out[i] by {
        assert(call_ensures(scale, (columns[i],), out[i]));
    }
}

} // verus!
