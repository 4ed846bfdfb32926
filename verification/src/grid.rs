//! How a band lies in memory: rows one after another, so that the sample of
//! `row` and `column` stands at `row * width + column`. A line is a run of
//! samples at equal strides: a row with stride one, a column with the width
//! as its stride.

use vstd::arithmetic::div_mod::{
    lemma_div_pos_is_pos, lemma_fundamental_div_mod, lemma_fundamental_div_mod_converse,
    lemma_mod_bound, lemma_multiply_divide_lt,
};
use vstd::prelude::*;

verus! {

/// The `len` cells of `band` at `start`, `start + stride`, and so on.
pub open spec fn line_of<T>(band: Seq<T>, start: int, stride: int, len: int) -> Seq<T> {
    Seq::new(len as nat, |k: int| band[start + stride * k])
}

/// The row `row` of a band that is `width` samples wide.
pub open spec fn row_of<T>(band: Seq<T>, width: int, row: int) -> Seq<T> {
    line_of(band, row * width, 1, width)
}

/// The column `column` of a band of `width` by `height` samples.
pub open spec fn column_of<T>(band: Seq<T>, width: int, height: int, column: int) -> Seq<T> {
    line_of(band, column, width, height)
}

/// Whether a line lies inside a band of `cells` samples.
pub open spec fn line_fits(cells: int, start: int, stride: int, len: int) -> bool {
    &&& 0 <= start
    &&& 1 <= stride
    &&& 1 <= len
    &&& start + stride * (len - 1) < cells
}

/// Whether the cell `i` of a band belongs to a line.
pub open spec fn on_line(i: int, start: int, stride: int, len: int) -> bool {
    &&& start <= i
    &&& (i - start) % stride == 0
    &&& (i - start) / stride < len
}

/// The `k`-th position of a line that fits a band is a cell of the band, and
/// lies on the line.
pub proof fn lemma_line_position(cells: int, start: int, stride: int, len: int, k: int)
    requires
        line_fits(cells, start, stride, len),
        0 <= k < len,
    ensures
        0 <= stride * k <= stride * (len - 1),
        0 <= start + stride * k < cells,
        on_line(start + stride * k, start, stride, len),
        (start + stride * k - start) / stride == k,
{
    assert(0 <= stride * k <= stride * (len - 1)) by (nonlinear_arith)
        requires
            1 <= stride,
            0 <= k <= len - 1,
    ;
    lemma_fundamental_div_mod_converse(stride * k, stride, k, 0);
}

/// Different positions of a line are different cells.
pub proof fn lemma_line_distinct(stride: int, j: int, k: int)
    requires
        1 <= stride,
        j != k,
    ensures
        stride * j != stride * k,
{
    assert(stride * j != stride * k) by (nonlinear_arith)
        requires
            1 <= stride,
            j != k,
    ;
}

/// A cell given by its row and column lies inside the band, and its row and
/// column are found again by dividing by the width.
pub proof fn lemma_cell(width: int, height: int, row: int, column: int)
    requires
        0 <= row < height,
        0 <= column < width,
    ensures
        0 <= row * width + column < width * height,
        (row * width + column) / width == row,
        (row * width + column) % width == column,
        row * width == width * row,
{
    assert(0 <= row * width && row * width + width <= width * height && row * width == width
        * row) by (nonlinear_arith)
        requires
            0 <= row < height,
            0 < width,
    ;
    lemma_fundamental_div_mod_converse(row * width + column, width, row, column);
}

/// Every cell of a band has a row and a column.
pub proof fn lemma_cell_of(width: int, height: int, i: int)
    requires
        0 < width,
        0 <= i < width * height,
    ensures
        0 <= i / width < height,
        0 <= i % width < width,
        i == (i / width) * width + i % width,
        i == i % width + width * (i / width),
{
    lemma_fundamental_div_mod(i, width);
    lemma_mod_bound(i, width);
    lemma_div_pos_is_pos(i, width);
    lemma_multiply_divide_lt(i, width, height);
    assert((i / width) * width == width * (i / width)) by (nonlinear_arith);
}

/// Reads the `k`-th sample of a line.
pub(crate) fn fetch(band: &Vec<u8>, start: usize, stride: usize, len: usize, k: usize) -> (value:
    u8)
    requires
        line_fits(band.len() as int, start as int, stride as int, len as int),
        k < len,
    ensures
        value == line_of(band@, start as int, stride as int, len as int)[k as int],
{
    proof {
        lemma_line_position(band.len() as int, start as int, stride as int, len as int, k as int);
    }
    band[start + stride * k]
}

/// Writes the `k`-th cell of a line, and no other cell of the band.
pub(crate) fn store<T>(
    band: &mut Vec<T>,
    start: usize,
    stride: usize,
    len: usize,
    k: usize,
    value: T,
)
    requires
        line_fits(old(band).len() as int, start as int, stride as int, len as int),
        k < len,
    ensures
        final(band).len() == old(band).len(),
        line_of(final(band)@, start as int, stride as int, len as int) == line_of(
            old(band)@,
            start as int,
            stride as int,
            len as int,
        ).update(k as int, value),
        forall|i: int|
            0 <= i < old(band).len() && !on_line(i, start as int, stride as int, len as int)
                ==> final(band)@[i] == old(band)@[i],
{
    proof {
        lemma_line_position(band.len() as int, start as int, stride as int, len as int, k as int);
    }
    let ghost before = band@;
    band.set(start + stride * k, value);
    proof {
        let after = line_of(band@, start as int, stride as int, len as int);
        let wanted = line_of(before, start as int, stride as int, len as int).update(
            k as int,
            value,
        );
        assert forall|j: int| 0 <= j < len implies after[j] == wanted[j] by {
            lemma_line_position(before.len() as int, start as int, stride as int, len as int, j);
            if j != k {
                lemma_line_distinct(stride as int, j, k as int);
            }
        }
        assert(after =~= wanted);
    }
}

/// The cells of a column are those whose index leaves the column as its
/// remainder by the width.
pub proof fn lemma_on_column(width: int, height: int, column: int, i: int)
    requires
        0 <= column < width,
        0 <= i < width * height,
    ensures
        on_line(i, column, width, height) <==> i % width == column,
{
    lemma_cell_of(width, height, i);
    if i % width == column {
        lemma_fundamental_div_mod_converse(i - column, width, i / width, 0);
    }
    if on_line(i, column, width, height) {
        lemma_fundamental_div_mod(i - column, width);
        let q = (i - column) / width;
        assert(width * q == q * width) by (nonlinear_arith);
        lemma_fundamental_div_mod_converse(i, width, q, column);
    }
}

} // verus!
