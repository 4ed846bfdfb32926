//! The filters themselves. Each takes one band with its width, its height
//! and a radius, refuses arguments that do not describe a band, and returns
//! the blurred band, as large as the one it was given.

use crate::area::{
    area_count, box_blurred, lemma_area_count_positive, lemma_area_mean_identity,
    lemma_area_mean_uniform, row_sums, sum_area,
};
use crate::box_line::{lemma_box_mean_single, window_count};
use crate::clamped::{
    clamped_columns, clamped_rows, largest_sum, lemma_clamped_bounds, lemma_clamped_identity,
    lemma_clamped_uniform, rescale, rescaled, sum_columns, sum_rows,
};
use crate::error::{answers, rejection, validate, BlurError, ANY_RADIUS};
use crate::grid::{column_of, lemma_cell, lemma_cell_of, row_of};
use crate::separable::{
    filter_columns, filter_rows, filtered_rows, is_flat, keeps_flat, lemma_separable_identity,
    lemma_separable_uniform, separable, Kernel,
};
use crate::sums::{lemma_sum_agree, sum_over};
use crate::tables::{lemma_tables_divide, TABLE_RADIUS};
use crate::window::{sample, samples, span_sum, window_end, window_start};
use vstd::prelude::*;

verus! {

/// The largest radius that a kernel takes.
pub open spec fn radius_limit(kernel: Kernel) -> int {
    match kernel {
        Kernel::Table => TABLE_RADIUS as int,
        _ => ANY_RADIUS as int,
    }
}

/// Judges the arguments, then blurs the rows and then the columns.
fn two_passes(kernel: Kernel, band: &Vec<u8>, width: i32, height: i32, radius: i32) -> (result:
    Result<Vec<u8>, BlurError>)
    ensures
        answers(
            result,
            rejection(
                band.len() as nat,
                width as int,
                height as int,
                radius as int,
                radius_limit(kernel),
            ),
            separable(kernel, band@, width as int, height as int, radius as int),
        ),
        result matches Ok(out) ==> out.len() == band.len(),
        result matches Ok(out) ==> radius == 0 ==> out@ == band@,
        result matches Ok(out) ==> is_flat(band@) && keeps_flat(kernel, radius as int) ==> out@
            == band@,
{
    let limit: i32 = match kernel {
        Kernel::Table => TABLE_RADIUS,
        _ => ANY_RADIUS,
    };
    match validate(band.len(), width, height, radius, limit) {
        Some(reason) => Err(reason),
        None => {
            let rows = filter_rows(
                kernel,
                band,
                width as usize,
                height as usize,
                radius as usize,
            );
            let out = filter_columns(
                kernel,
                &rows,
                width as usize,
                height as usize,
                radius as usize,
            );
            proof {
                if radius == 0 {
                    lemma_separable_identity(kernel, band@, width as int, height as int);
                }
                if is_flat(band@) && keeps_flat(kernel, radius as int) {
                    lemma_separable_uniform(
                        kernel,
                        band@,
                        width as int,
                        height as int,
                        radius as int,
                    );
                }
            }
            Ok(out)
        },
    }
}

/// At radius zero the plain box blur returns the band unchanged.
pub proof fn lemma_box_blurred_identity(band: Seq<u8>, width: int, height: int)
    requires
        0 < width,
        0 < height,
        band.len() == width * height,
    ensures
        box_blurred(band, width, height, 0) == band,
{
    let out = box_blurred(band, width, height, 0);
    assert forall|i: int| 0 <= i < band.len() implies out[i] == band[i] by {
        lemma_cell_of(width, height, i);
        lemma_area_mean_identity(band, width, height, i / width, i % width);
    }
}

/// The plain box blur returns a band of equal samples unchanged.
pub proof fn lemma_box_blurred_uniform(band: Seq<u8>, width: int, height: int, radius: int)
    requires
        0 < width,
        0 < height,
        0 <= radius,
        band.len() == width * height,
        is_flat(band),
    ensures
        box_blurred(band, width, height, radius) == band,
{
    let out = box_blurred(band, width, height, radius);
    assert forall|i: int| 0 <= i < band.len() implies out[i] == band[i] by {
        lemma_cell_of(width, height, i);
        lemma_area_mean_uniform(
            band,
            band[0] as int,
            width,
            height,
            radius,
            i / width,
            i % width,
        );
    }
}

/// On a band of a single row or a single column the two box blurs agree:
/// one of the two passes has nothing to average, so that rounding after the
/// first pass loses nothing.
pub proof fn lemma_box_blurs_agree_on_a_line(band: Seq<u8>, width: int, height: int, radius: int)
    requires
        0 < width,
        0 < height,
        width == 1 || height == 1,
        0 <= radius,
        band.len() == width * height,
    ensures
        separable(Kernel::Box, band, width, height, radius) == box_blurred(
            band,
            width,
            height,
            radius,
        ),
{
    let rows = filtered_rows(Kernel::Box, band, width, height, radius);
    let both = separable(Kernel::Box, band, width, height, radius);
    let plain = box_blurred(band, width, height, radius);
    assert forall|i: int| 0 <= i < band.len() implies both[i] == plain[i] by {
        lemma_cell_of(width, height, i);
        let row = i / width;
        let column = i % width;
        let left = window_start(column, radius);
        let right = window_end(column, radius, width);
        let top = window_start(row, radius);
        let bottom = window_end(row, radius, height);
        let f = row_sums(band, width, left, right);
        if height == 1 {
            let upright = column_of(rows, width, height, column);
            lemma_box_mean_single(upright, radius);
            assert(sum_over(f, 0, 1) == sum_over(f, 0, 0) + f(0));
            assert(area_count(width, height, radius, row, column) == right - left)
                by (nonlinear_arith)
                requires
                    area_count(width, height, radius, row, column) == window_count(
                        height,
                        radius,
                        row,
                    ) * window_count(width, radius, column),
                    window_count(height, radius, row) == 1,
                    window_count(width, radius, column) == right - left,
            ;
        } else {
            let upright = column_of(band, width, height, 0);
            let across = column_of(rows, width, height, 0);
            assert forall|y: int| 0 <= y < height implies across[y] == upright[y] by {
                let flat = row_of(band, width, y);
                lemma_box_mean_single(flat, radius);
            }
            assert(across =~= upright);
            assert forall|y: int| top <= y < bottom implies #[trigger] f(y) == samples(upright)(
                y,
            ) by {
                let flat = row_of(band, width, y);
                assert(span_sum(flat, 0, 1) == span_sum(flat, 0, 0) + sample(flat, 0));
            }
            lemma_sum_agree(f, samples(upright), top, bottom);
            assert(area_count(width, height, radius, row, column) == bottom - top)
                by (nonlinear_arith)
                requires
                    area_count(width, height, radius, row, column) == window_count(
                        height,
                        radius,
                        row,
                    ) * window_count(width, radius, column),
                    window_count(width, radius, column) == 1,
                    window_count(height, radius, row) == bottom - top,
            ;
        }
    }
}

/// The first row or column inside the band of a window around `at`.
fn first_inside(at: usize, radius: usize) -> (from: usize)
    ensures
        from == window_start(at as int, radius as int),
{
    if at > radius {
        at - radius
    } else {
        0
    }
}

/// The row or column behind the last one inside the band of a window around
/// `at`.
fn end_inside(at: usize, radius: usize, len: usize) -> (to: usize)
    requires
        at < len,
    ensures
        to == window_end(at as int, radius as int, len as int),
{
    if radius < len - at {
        at + radius + 1
    } else {
        len
    }
}

/// The plain box blur.
///
/// A sample becomes the mean, rounded down, of the samples at most `radius`
/// rows and at most `radius` columns away from it. Cells of that square
/// beyond the band are left out of the sum and of the count, so near an
/// edge the mean is taken over fewer samples. Every window is summed anew:
/// the time taken grows with the square of the radius.
///
/// The result has the shape of `band`. At radius zero, and for a band whose
/// samples are all equal, it is `band` itself.
pub fn box_blur(band: &Vec<u8>, width: i32, height: i32, radius: i32) -> (result: Result<
    Vec<u8>,
    BlurError,
>)
    ensures
        answers(
            result,
            rejection(
                band.len() as nat,
                width as int,
                height as int,
                radius as int,
                ANY_RADIUS as int,
            ),
            box_blurred(band@, width as int, height as int, radius as int),
        ),
        result matches Ok(out) ==> out.len() == band.len(),
        result matches Ok(out) ==> radius == 0 ==> out@ == band@,
        result matches Ok(out) ==> is_flat(band@) ==> out@ == band@,
{
    if let Some(reason) = validate(band.len(), width, height, radius, ANY_RADIUS) {
        return Err(reason);
    }
    let w: usize = width as usize;
    let h: usize = height as usize;
    let r: usize = radius as usize;
    let ghost wanted = box_blurred(band@, w as int, h as int, r as int);
    let mut out: Vec<u8> = Vec::with_capacity(band.len());
    let mut row: usize = 0;
    while row < h
        invariant
            0 <= row <= h <= 0x7fff_ffff,
            1 <= w <= 0x7fff_ffff,
            r <= 0x7fff_ffff,
            band.len() == w * h,
            wanted == box_blurred(band@, w as int, h as int, r as int),
            out.len() == row * w,
            forall|i: int| 0 <= i < out.len() ==> out@[i] == wanted[i],
        decreases h - row,
    {
        let top = first_inside(row, r);
        let bottom = end_inside(row, r, h);
        let mut column: usize = 0;
        while column < w
            invariant
                0 <= column <= w <= 0x7fff_ffff,
                0 <= row < h <= 0x7fff_ffff,
                r <= 0x7fff_ffff,
                band.len() == w * h,
                wanted == box_blurred(band@, w as int, h as int, r as int),
                top == window_start(row as int, r as int),
                bottom == window_end(row as int, r as int, h as int),
                out.len() == row * w + column,
                forall|i: int| 0 <= i < out.len() ==> out@[i] == wanted[i],
            decreases w - column,
        {
            let left = first_inside(column, r);
            let right = end_inside(column, r, w);
            proof {
                lemma_area_count_positive(w as int, h as int, r as int, row as int, column as int);
                lemma_cell(w as int, h as int, row as int, column as int);
                assert(w * h <= 0x7fff_ffff * 0x7fff_ffff) by (nonlinear_arith)
                    requires
                        0 <= w <= 0x7fff_ffff,
                        0 <= h <= 0x7fff_ffff,
                ;
            }
            let total = sum_area(band, w, h, top, bottom, left, right);
            let count: u64 = ((bottom - top) as u64) * ((right - left) as u64);
            let ghost before = out@;
            out.push((total / (count as u128)) as u8);
            proof {
                let i = row * w + column;
                assert forall|j: int| 0 <= j < out.len() implies out@[j] == wanted[j] by {}
            }
            column = column + 1;
        }
        proof {
            assert((row + 1) * w == row * w + w) by (nonlinear_arith);
        }
        row = row + 1;
    }
    proof {
        assert(row * w == w * h) by (nonlinear_arith)
            requires
                row == h,
        ;
        assert(out@ =~= wanted);
        if radius == 0 {
            lemma_box_blurred_identity(band@, width as int, height as int);
        }
        if is_flat(band@) {
            lemma_box_blurred_uniform(band@, width as int, height as int, radius as int);
        }
    }
    Ok(out)
}

/// The box blur in two passes with a running sum.
///
/// Every row is blurred along its length, then every column of the result
/// along its height. A sample becomes the mean, rounded down, of the samples
/// at most `radius` positions away from it on its line; near an end of the
/// line the window holds fewer of them. From one position to the next the
/// sum is kept up to date by taking off the sample that left the window and
/// adding the one that entered, so the time taken does not grow with the
/// radius.
///
/// The result has the shape of `band`. At radius zero, and for a band whose
/// samples are all equal, it is `band` itself.
pub fn box_blur_optimized(band: &Vec<u8>, width: i32, height: i32, radius: i32) -> (result: Result<
    Vec<u8>,
    BlurError,
>)
    ensures
        answers(
            result,
            rejection(
                band.len() as nat,
                width as int,
                height as int,
                radius as int,
                ANY_RADIUS as int,
            ),
            separable(Kernel::Box, band@, width as int, height as int, radius as int),
        ),
        result matches Ok(out) ==> out.len() == band.len(),
        result matches Ok(out) ==> radius == 0 ==> out@ == band@,
        result matches Ok(out) ==> is_flat(band@) ==> out@ == band@,
{
    two_passes(Kernel::Box, band, width, height, radius)
}

/// Whether `scale` can make nothing but `value` of `sum`.
pub open spec fn exact_at<F: Fn(u64) -> u8>(scale: F, sum: u64, value: u8) -> bool {
    forall|byte: u8| #[trigger] call_ensures(scale, (sum,), byte) ==> byte == value
}

/// The clamped box blur in two passes, with a scaling function in place of
/// the division.
///
/// Every row is summed along its length and scaled, then every column of
/// the result along its height. The window always holds `2 * radius + 1`
/// positions; a position beyond an end of the line counts as the sample at
/// that end. From one position to the next the sum is kept up to date by
/// taking off the sample that left the window and adding the one that
/// entered. `scale` turns each sum into a sample: it stands for the
/// multiplication by the reciprocal of `2 * radius + 1`, and is called on
/// sums up to `255 * (2 * radius + 1)` only.
///
/// The result has the shape of `band`. Where `scale` gives every sample back
/// at radius zero, so does the filter; where it makes `v` of the sum of a
/// window of samples that all equal `v`, a band of such samples comes back
/// unchanged.
pub fn box_blur_optimized_further<F: Fn(u64) -> u8>(
    band: &Vec<u8>,
    width: i32,
    height: i32,
    radius: i32,
    scale: F,
) -> (result: Result<Vec<u8>, BlurError>)
    requires
        forall|sum: u64| sum <= largest_sum(radius as int) ==> call_requires(scale, (sum,)),
    ensures
        match result {
            Ok(out) => {
                &&& rejection(
                    band.len() as nat,
                    width as int,
                    height as int,
                    radius as int,
                    ANY_RADIUS as int,
                ) is None
                &&& exists|first: Seq<u8>|
                    {
                        &&& #[trigger] rescaled(
                            clamped_rows(band@, width as int, height as int, radius as int),
                            first,
                            scale,
                        )
                        &&& rescaled(
                            clamped_columns(first, width as int, height as int, radius as int),
                            out@,
                            scale,
                        )
                    }
            },
            Err(reason) => rejection(
                band.len() as nat,
                width as int,
                height as int,
                radius as int,
                ANY_RADIUS as int,
            ) == Some(reason),
        },
        result matches Ok(out) ==> out.len() == band.len(),
        result matches Ok(out) ==> radius == 0 && (forall|v: u8| #[trigger]
            exact_at(scale, v as u64, v)) ==> out@ == band@,
        result matches Ok(out) ==> band.len() > 0 && is_flat(band@) && exact_at(
            scale,
            (band@[0] * (2 * radius + 1)) as u64,
            band@[0],
        ) ==> out@ == band@,
{
    if let Some(reason) = validate(band.len(), width, height, radius, ANY_RADIUS) {
        return Err(reason);
    }
    let w: usize = width as usize;
    let h: usize = height as usize;
    let r: usize = radius as usize;
    let row_sums = sum_rows(band, w, h, r);
    proof {
        assert forall|i: int| 0 <= i < row_sums.len() implies call_requires(
            scale,
            (#[trigger] row_sums@[i],),
        ) by {
            lemma_clamped_bounds(band@, w as int, h as int, r as int, i);
        }
    }
    let first = rescale(&row_sums, &scale);
    let column_sums = sum_columns(&first, w, h, r);
    proof {
        assert forall|i: int| 0 <= i < column_sums.len() implies call_requires(
            scale,
            (#[trigger] column_sums@[i],),
        ) by {
            lemma_clamped_bounds(first@, w as int, h as int, r as int, i);
        }
    }
    let out = rescale(&column_sums, &scale);
    proof {
        if radius == 0 && (forall|v: u8| #[trigger] exact_at(scale, v as u64, v)) {
            assert forall|i: int| 0 <= i < band.len() implies first@[i] == band@[i] by {
                lemma_clamped_identity(band@, w as int, h as int, i);
                assert(exact_at(scale, band@[i] as u64, band@[i]));
            }
            assert forall|i: int| 0 <= i < band.len() implies out@[i] == band@[i] by {
                lemma_clamped_identity(first@, w as int, h as int, i);
                assert(exact_at(scale, band@[i] as u64, band@[i]));
            }
        }
        if is_flat(band@) && exact_at(
            scale,
            (band@[0] * (2 * radius + 1)) as u64,
            band@[0],
        ) {
            let sum = (band@[0] * (2 * radius + 1)) as u64;
            assert forall|i: int| 0 <= i < band.len() implies first@[i] == band@[i] by {
                lemma_clamped_uniform(band@, w as int, h as int, r as int, i);
            }
            assert forall|i: int| 0 <= i < band.len() implies out@[i] == band@[i] by {
                lemma_clamped_uniform(first@, w as int, h as int, r as int, i);
            }
        }
    }
    Ok(out)
}

/// The stack blur in two passes, dividing by the weights.
///
/// Every row is blurred along its length, then every column of the result
/// along its height. A sample becomes the weighted mean, rounded down, of
/// the samples at most `radius` positions away from it on its line, a sample
/// weighing `radius + 1` at the centre and one less with each step away from
/// it; near an end of the line the window holds fewer samples and their
/// weights alone divide the sum. From one position to the next the weighted
/// sum is kept up to date from two plain running sums.
///
/// The result has the shape of `band`. At radius zero, and for a band whose
/// samples are all equal, it is `band` itself.
pub fn stack_blur(band: &Vec<u8>, width: i32, height: i32, radius: i32) -> (result: Result<
    Vec<u8>,
    BlurError,
>)
    ensures
        answers(
            result,
            rejection(
                band.len() as nat,
                width as int,
                height as int,
                radius as int,
                ANY_RADIUS as int,
            ),
            separable(Kernel::Stack, band@, width as int, height as int, radius as int),
        ),
        result matches Ok(out) ==> out.len() == band.len(),
        result matches Ok(out) ==> radius == 0 ==> out@ == band@,
        result matches Ok(out) ==> is_flat(band@) ==> out@ == band@,
{
    two_passes(Kernel::Stack, band, width, height, radius)
}

/// The classic stack blur in two passes, with its two tables.
///
/// Every row is blurred along its length, then every column of the result
/// along its height. The window always holds `2 * radius + 1` positions,
/// weighted as in `stack_blur`; a position beyond an end of the line counts
/// as the sample at that end. The weighted sum is multiplied by the
/// multiplier that the tables hold for the radius and shifted to the right
/// by their shift, in place of a division by the square of `radius + 1`; a
/// value above 255 becomes 255. The tables end at radius 255, and a larger
/// radius is refused.
///
/// At radius 2 the tables divide by 8 where the weights sum to 9, and at
/// radius 3 by about 18 where they sum to 16: the result is too bright at
/// the one and too dark at the other. At every other radius a band whose
/// samples are all equal comes back unchanged, as every band does at radius
/// zero.
pub fn stack_blur_optimized(band: &Vec<u8>, width: i32, height: i32, radius: i32) -> (result:
    Result<Vec<u8>, BlurError>)
    ensures
        answers(
            result,
            rejection(
                band.len() as nat,
                width as int,
                height as int,
                radius as int,
                TABLE_RADIUS as int,
            ),
            separable(Kernel::Table, band@, width as int, height as int, radius as int),
        ),
        width > 0 && height > 0 && band.len() == width * height && radius > TABLE_RADIUS
            ==> result matches Err(BlurError::RadiusOutOfRange),
        result matches Ok(out) ==> out.len() == band.len(),
        result matches Ok(out) ==> radius == 0 ==> out@ == band@,
        result matches Ok(out) ==> is_flat(band@) && radius != 2 && radius != 3 ==> out@ == band@,
{
    proof {
        if 0 <= radius <= 255 && radius != 2 && radius != 3 {
            lemma_tables_divide(radius as int);
        }
    }
    two_passes(Kernel::Table, band, width, height, radius)
}

} // verus!
