//! Filters in two passes: each row of the band is blurred along its length
//! into a band of its own, then each column of that band along its height.

use crate::box_line::{
    box_line, box_mean, lemma_box_mean_bounds, lemma_box_mean_identity, lemma_box_mean_uniform,
};
use crate::grid::{
    column_of, lemma_cell, lemma_cell_of, lemma_on_column, line_fits, line_of, on_line, row_of,
};
use crate::stack_line::{
    lemma_stack_mean_bounds, lemma_stack_mean_identity, lemma_stack_mean_uniform, stack_line,
    stack_mean,
};
use crate::table_line::{
    lemma_table_mean_bounds, lemma_table_mean_identity, lemma_table_mean_uniform, table_line,
    table_mean,
};
use crate::tables::divides_evenly;
use vstd::prelude::*;

verus! {

/// The filters that work line by line.
#[derive(Clone, Copy, Debug)]
pub enum Kernel {
    /// The plain mean of a window that shrinks at the ends of a line.
    Box,
    /// The triangular mean of a window that shrinks at the ends of a line.
    Stack,
    /// The triangular mean of a clamped window, scaled by the tables.
    Table,
}

/// The radii that a kernel takes: any for the two that divide, up to 255 for
/// the tables.
pub open spec fn admits(kernel: Kernel, radius: int) -> bool {
    match kernel {
        Kernel::Table => 0 <= radius <= 255,
        _ => 0 <= radius <= 0x7fff_ffff,
    }
}

/// The value that a kernel puts at `at` on a line.
pub open spec fn line_value(kernel: Kernel, line: Seq<u8>, radius: int, at: int) -> int {
    match kernel {
        Kernel::Box => box_mean(line, radius, at),
        Kernel::Stack => stack_mean(line, radius, at),
        Kernel::Table => table_mean(line, radius, at),
    }
}

/// The band with every row blurred along its length.
pub open spec fn filtered_rows(
    kernel: Kernel,
    band: Seq<u8>,
    width: int,
    height: int,
    radius: int,
) -> Seq<u8> {
    Seq::new(
        band.len(),
        |i: int| line_value(kernel, row_of(band, width, i / width), radius, i % width) as u8,
    )
}

/// The band with every column blurred along its height.
pub open spec fn filtered_columns(
    kernel: Kernel,
    band: Seq<u8>,
    width: int,
    height: int,
    radius: int,
) -> Seq<u8> {
    Seq::new(
        band.len(),
        |i: int|
            line_value(kernel, column_of(band, width, height, i % width), radius, i / width) as u8,
    )
}

/// The band after both passes: rows first, then the columns of the result.
pub open spec fn separable(
    kernel: Kernel,
    band: Seq<u8>,
    width: int,
    height: int,
    radius: int,
) -> Seq<u8> {
    filtered_columns(
        kernel,
        filtered_rows(kernel, band, width, height, radius),
        width,
        height,
        radius,
    )
}

/// Every value that a kernel computes lies between 0 and 255: it is stored as
/// a sample without loss.
pub proof fn lemma_line_value_bounds(kernel: Kernel, line: Seq<u8>, radius: int, at: int)
    requires
        radius >= 0,
        0 <= at < line.len(),
    ensures
        0 <= line_value(kernel, line, radius, at) <= 255,
{
    match kernel {
        Kernel::Box => lemma_box_mean_bounds(line, radius, at),
        Kernel::Stack => lemma_stack_mean_bounds(line, radius, at),
        Kernel::Table => lemma_table_mean_bounds(line, radius, at),
    }
}

/// Blurs one line of `src` into the same cells of `dst`.
fn run_line(
    kernel: Kernel,
    src: &Vec<u8>,
    dst: &mut Vec<u8>,
    start: usize,
    stride: usize,
    len: usize,
    radius: usize,
)
    requires
        line_fits(src.len() as int, start as int, stride as int, len as int),
        old(dst).len() == src.len(),
        len <= 0x7fff_ffff,
        admits(kernel, radius as int),
    ensures
        final(dst).len() == src.len(),
        forall|k: int|
            0 <= k < len ==> line_of(final(dst)@, start as int, stride as int, len as int)[k]
                == line_value(
                kernel,
                line_of(src@, start as int, stride as int, len as int),
                radius as int,
                k,
            ),
        forall|i: int|
            0 <= i < src.len() && !on_line(i, start as int, stride as int, len as int)
                ==> final(dst)@[i] == old(dst)@[i],
{
    match kernel {
        Kernel::Box => box_line(src, dst, start, stride, len, radius),
        Kernel::Stack => stack_line(src, dst, start, stride, len, radius),
        Kernel::Table => table_line(src, dst, start, stride, len, radius),
    }
}

/// Blurs every row of `band` along its length.
pub(crate) fn filter_rows(
    kernel: Kernel,
    band: &Vec<u8>,
    width: usize,
    height: usize,
    radius: usize,
) -> (out: Vec<u8>)
    requires
        1 <= width <= 0x7fff_ffff,
        1 <= height <= 0x7fff_ffff,
        band.len() == width * height,
        admits(kernel, radius as int),
    ensures
        out@ == filtered_rows(kernel, band@, width as int, height as int, radius as int),
{
    let mut out: Vec<u8> = vec![0u8; band.len()];
    let ghost wanted = filtered_rows(kernel, band@, width as int, height as int, radius as int);
    let mut row: usize = 0;
    while row < height
        invariant
            0 <= row <= height,
            1 <= width <= 0x7fff_ffff,
            band.len() == width * height,
            out.len() == band.len(),
            admits(kernel, radius as int),
            wanted == filtered_rows(kernel, band@, width as int, height as int, radius as int),
            forall|i: int| 0 <= i < row * width && i < band.len() ==> out@[i] == wanted[i],
        decreases height - row,
    {
        proof {
            lemma_cell(width as int, height as int, row as int, width - 1);
        }
        let start: usize = row * width;
        run_line(kernel, band, &mut out, start, 1, width, radius);
        proof {
            let line = line_of(out@, start as int, 1, width as int);
            assert forall|i: int| 0 <= i < (row + 1) * width && i < band.len() implies out@[i]
                == wanted[i] by {
                assert((row + 1) * width == row * width + width) by (nonlinear_arith);
                if i >= start {
                    let k = i - start;
                    lemma_cell(width as int, height as int, row as int, k);
                    assert(line[k] == out@[start + 1 * k]);
                }
            }
        }
        row = row + 1;
    }
    proof {
        assert(row * width == width * height) by (nonlinear_arith)
            requires
                row == height,
        ;
    }
    out
}

/// Blurs every column of `band` along its height.
pub(crate) fn filter_columns(
    kernel: Kernel,
    band: &Vec<u8>,
    width: usize,
    height: usize,
    radius: usize,
) -> (out: Vec<u8>)
    requires
        1 <= width <= 0x7fff_ffff,
        1 <= height <= 0x7fff_ffff,
        band.len() == width * height,
        admits(kernel, radius as int),
    ensures
        out@ == filtered_columns(kernel, band@, width as int, height as int, radius as int),
{
    let mut out: Vec<u8> = vec![0u8; band.len()];
    let ghost wanted = filtered_columns(kernel, band@, width as int, height as int, radius as int);
    let mut column: usize = 0;
    while column < width
        invariant
            0 <= column <= width <= 0x7fff_ffff,
            1 <= height <= 0x7fff_ffff,
            band.len() == width * height,
            out.len() == band.len(),
            admits(kernel, radius as int),
            wanted == filtered_columns(kernel, band@, width as int, height as int, radius as int),
            forall|i: int|
                0 <= i < band.len() && i % (width as int) < column ==> out@[i] == wanted[i],
        decreases width - column,
    {
        proof {
            lemma_cell(width as int, height as int, height - 1, column as int);
            assert(width * (height - 1) == (height - 1) * width) by (nonlinear_arith);
        }
        run_line(kernel, band, &mut out, column, width, height, radius);
        proof {
            let line = line_of(out@, column as int, width as int, height as int);
            assert forall|i: int|
                0 <= i < band.len() && i % (width as int) < column + 1 implies out@[i]
                == wanted[i] by {
                lemma_on_column(width as int, height as int, column as int, i);
                lemma_cell_of(width as int, height as int, i);
                if i % (width as int) == column {
                    let k = i / (width as int);
                    assert(line[k] == out@[column + width * k]);
                }
            }
        }
        column = column + 1;
    }
    out
}

/// Whether every sample of a band equals its first.
pub open spec fn is_flat(band: Seq<u8>) -> bool {
    forall|i: int| 0 <= i < band.len() ==> #[trigger] band[i] == band[0]
}

/// Whether a kernel leaves lines of equal samples as they are at `radius`:
/// the tables do so where they divide evenly, the other two always.
pub open spec fn keeps_flat(kernel: Kernel, radius: int) -> bool {
    match kernel {
        Kernel::Table => divides_evenly(radius),
        _ => true,
    }
}

/// At radius zero every kernel leaves a line as it is.
pub proof fn lemma_line_value_identity(kernel: Kernel, line: Seq<u8>, at: int)
    requires
        0 <= at < line.len(),
    ensures
        line_value(kernel, line, 0, at) == line[at],
{
    match kernel {
        Kernel::Box => lemma_box_mean_identity(line, at),
        Kernel::Stack => lemma_stack_mean_identity(line, at),
        Kernel::Table => lemma_table_mean_identity(line, at),
    }
}

/// A line of equal samples is left as it is.
pub proof fn lemma_line_value_uniform(
    kernel: Kernel,
    line: Seq<u8>,
    value: int,
    radius: int,
    at: int,
)
    requires
        admits(kernel, radius),
        keeps_flat(kernel, radius),
        0 <= at < line.len(),
        forall|k: int| 0 <= k < line.len() ==> line[k] == value,
    ensures
        line_value(kernel, line, radius, at) == value,
{
    match kernel {
        Kernel::Box => lemma_box_mean_uniform(line, value, radius, at),
        Kernel::Stack => lemma_stack_mean_uniform(line, value, radius, at),
        Kernel::Table => lemma_table_mean_uniform(line, value, radius, at),
    }
}

/// At radius zero both passes return the band unchanged.
pub proof fn lemma_separable_identity(kernel: Kernel, band: Seq<u8>, width: int, height: int)
    requires
        0 < width,
        0 < height,
        band.len() == width * height,
    ensures
        filtered_rows(kernel, band, width, height, 0) == band,
        filtered_columns(kernel, band, width, height, 0) == band,
        separable(kernel, band, width, height, 0) == band,
{
    let rows = filtered_rows(kernel, band, width, height, 0);
    let columns = filtered_columns(kernel, band, width, height, 0);
    assert forall|i: int| 0 <= i < band.len() implies rows[i] == band[i] && columns[i]
        == band[i] by {
        lemma_cell_of(width, height, i);
        lemma_line_value_identity(kernel, row_of(band, width, i / width), i % width);
        lemma_line_value_identity(kernel, column_of(band, width, height, i % width), i / width);
    }
}

/// A band of equal samples comes back unchanged from both passes.
pub proof fn lemma_separable_uniform(
    kernel: Kernel,
    band: Seq<u8>,
    width: int,
    height: int,
    radius: int,
)
    requires
        0 < width,
        0 < height,
        band.len() == width * height,
        admits(kernel, radius),
        keeps_flat(kernel, radius),
        is_flat(band),
    ensures
        filtered_rows(kernel, band, width, height, radius) == band,
        filtered_columns(kernel, band, width, height, radius) == band,
        separable(kernel, band, width, height, radius) == band,
{
    let rows = filtered_rows(kernel, band, width, height, radius);
    let columns = filtered_columns(kernel, band, width, height, radius);
    let value = band[0] as int;
    assert forall|i: int| 0 <= i < band.len() implies rows[i] == band[i] && columns[i]
        == band[i] by {
        lemma_cell_of(width, height, i);
        let row = row_of(band, width, i / width);
        assert forall|k: int| 0 <= k < row.len() implies row[k] == value by {
            lemma_cell(width, height, i / width, k);
        }
        lemma_line_value_uniform(kernel, row, value, radius, i % width);
        let column = column_of(band, width, height, i % width);
        assert forall|k: int| 0 <= k < column.len() implies column[k] == value by {
            lemma_cell(width, height, k, i % width);
            assert(k * width == width * k) by (nonlinear_arith);
        }
        lemma_line_value_uniform(kernel, column, value, radius, i / width);
    }
    assert(rows =~= band);
}

/// Each sample of a pass is the value that the kernel computes, stored
/// without loss: no value leaves the range of a sample.
pub proof fn lemma_filtered_cell(
    kernel: Kernel,
    band: Seq<u8>,
    width: int,
    height: int,
    radius: int,
    i: int,
)
    requires
        0 < width,
        0 < height,
        0 <= radius,
        band.len() == width * height,
        0 <= i < band.len(),
    ensures
        filtered_rows(kernel, band, width, height, radius)[i] == line_value(
            kernel,
            row_of(band, width, i / width),
            radius,
            i % width,
        ),
        filtered_columns(kernel, band, width, height, radius)[i] == line_value(
            kernel,
            column_of(band, width, height, i % width),
            radius,
            i / width,
        ),
{
    lemma_cell_of(width, height, i);
    lemma_line_value_bounds(kernel, row_of(band, width, i / width), radius, i % width);
    lemma_line_value_bounds(kernel, column_of(band, width, height, i % width), radius, i / width);
}

} // verus!
