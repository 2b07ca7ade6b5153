//! The preprocessor: a box filter made of a horizontal and a vertical pass,
//! each computed from the running sums of one line of the image.

use crate::gray::{
    blank_buffer, buffer_dimensions, column_running_sum, row_running_sum, store, GrayImage,
};
use crate::raster::{lemma_from_fn, lemma_put, lemma_raster_equal, Raster};
use crate::running_sum::{
    is_running_sum, lemma_span_sum_bounds, lemma_span_sum_split, lemma_span_sum_uniform, span_sum,
};
use vstd::prelude::*;

verus! {

/// The mean, rounded down, of the `2 * radius + 1` padded samples of `line`
/// around position `center`.
pub open spec fn box_mean(line: Seq<u8>, center: int, radius: int) -> int {
    span_sum(line, center - radius, center + radius + 1) / (2 * radius + 1)
}

/// The horizontal pass: every sample becomes the box mean of its row.
pub open spec fn row_pass(r: Raster, x_radius: int) -> Raster {
    Raster::from_fn(r.width, r.height, |x: int, y: int| box_mean(r.row(y), x, x_radius) as u8)
}

/// The vertical pass: every sample becomes the box mean of its column.
pub open spec fn column_pass(r: Raster, y_radius: int) -> Raster {
    Raster::from_fn(
        r.width,
        r.height,
        |x: int, y: int| box_mean(r.column(x), y, y_radius) as u8,
    )
}

/// The filtered raster: the vertical pass over the result of the
/// horizontal pass. Each pass rounds down on its own.
pub open spec fn box_filtered(r: Raster, x_radius: int, y_radius: int) -> Raster {
    column_pass(row_pass(r, x_radius), y_radius)
}

/// Whether the filter can work on `r` with the given radii: the running
/// sums of every row and every column, padded by the radii, must fit in
/// 32 bits. A raster without columns or rows has no sums to compute.
pub open spec fn filter_fits(r: Raster, x_radius: int, y_radius: int) -> bool {
    ||| r.width == 0
    ||| r.height == 0
    ||| ((r.width + 2 * x_radius) * 255 <= u32::MAX && (r.height + 2 * y_radius) * 255 <= u32::MAX)
}

/// A box mean is a sample value.
pub proof fn lemma_box_mean_bounds(line: Seq<u8>, center: int, radius: int)
    requires
        0 <= radius,
    ensures
        0 <= box_mean(line, center, radius) <= 255,
{
    let s = span_sum(line, center - radius, center + radius + 1);
    let k = 2 * radius + 1;
    lemma_span_sum_bounds(line, center - radius, center + radius + 1);
    assert(0 <= s / k <= 255) by (nonlinear_arith)
        requires
            0 <= s <= 255 * k,
            k > 0,
    ;
}

/// The box mean around position `center` of a line, read off the running
/// sums of that line padded by `radius`.
fn mean_from_running_sums(
    sums: &Vec<u32>,
    center: u32,
    radius: u32,
    Ghost(line): Ghost<Seq<u8>>,
) -> (mean: u8)
    requires
        center < line.len(),
        is_running_sum(sums@, line, radius as int),
        sums@.len() * 255 <= u32::MAX,
    ensures
        mean == box_mean(line, center as int, radius as int),
{
    let kernel: u32 = 2 * radius + 1;
    let upper: usize = (center + 2 * radius) as usize;
    let window: u32 = if center == 0 {
        sums[upper]
    } else {
        let lower: usize = (center - 1) as usize;
        proof {
            lemma_span_sum_split(line, -(radius as int), center - radius, center + radius + 1);
            lemma_span_sum_bounds(line, center - radius, center + radius + 1);
        }
        sums[upper] - sums[lower]
    };
    proof {
        lemma_box_mean_bounds(line, center as int, radius as int);
    }
    (window / kernel) as u8
}

/// Smooths `image` with a box of `2 * x_radius + 1` by `2 * y_radius + 1`
/// samples, as a horizontal pass followed by a vertical pass. Past the
/// border the image is continued by its outermost samples. An image
/// without columns or rows gives an image of the same dimensions.
pub fn laplacian_filter(image: &GrayImage, x_radius: u32, y_radius: u32) -> (out: GrayImage)
    requires
        filter_fits(image@, x_radius as int, y_radius as int),
    ensures
        out@ == box_filtered(image@, x_radius as int, y_radius as int),
        out@.width == image@.width,
        out@.height == image@.height,
        forall|c: u8| image@.is_uniform(c) ==> out@ == image@,
{
    let (width, height): (u32, u32) = buffer_dimensions(image);
    let mut out: GrayImage = blank_buffer(width, height);
    let ghost source = image@;
    let ghost rows_done = row_pass(source, x_radius as int);
    let ghost filtered = column_pass(rows_done, y_radius as int);
    proof {
        assert forall|c: u8| source.is_uniform(c) implies filtered == source by {
            lemma_filter_preserves_uniform(source, c, x_radius as int, y_radius as int);
        }
        lemma_from_fn(
            source.width,
            source.height,
            |x: int, y: int| box_mean(source.row(y), x, x_radius as int) as u8,
        );
        lemma_from_fn(
            rows_done.width,
            rows_done.height,
            |x: int, y: int| box_mean(rows_done.column(x), y, y_radius as int) as u8,
        );
    }
    if width == 0 || height == 0 {
        proof {
            lemma_raster_equal(out@, filtered);
        }
        return out;
    }
    let mut row_buffer: Vec<u32> = vec![0; (width + 2 * x_radius) as usize];
    let mut y: u32 = 0;
    while y < height
        invariant
            source == image@,
            source.wf(),
            source.width == width,
            source.height == height,
            width > 0,
            rows_done == row_pass(source, x_radius as int),
            rows_done.wf(),
            0 <= y <= height,
            row_buffer@.len() == width + 2 * x_radius,
            row_buffer@.len() * 255 <= u32::MAX,
            out@.width == width,
            out@.height == height,
            out@.wf(),
            forall|a: int, b: int|
                0 <= a < width && 0 <= b < height ==> #[trigger] out@.at(a, b) == if b < y {
                    rows_done.at(a, b)
                } else {
                    0u8
                },
        decreases height - y,
    {
        row_running_sum(image, y, &mut row_buffer, x_radius);
        let ghost line = source.row(y as int);
        let mut x: u32 = 0;
        while x < width
            invariant
                source.wf(),
                source.width == width,
                source.height == height,
                rows_done == row_pass(source, x_radius as int),
                rows_done.wf(),
                0 <= y < height,
                0 <= x <= width,
                line == source.row(y as int),
                is_running_sum(row_buffer@, line, x_radius as int),
                row_buffer@.len() * 255 <= u32::MAX,
                out@.width == width,
                out@.height == height,
                out@.wf(),
                forall|a: int, b: int|
                    0 <= a < width && 0 <= b < height ==> #[trigger] out@.at(a, b) == if b < y || (b
                        == y && a < x) {
                        rows_done.at(a, b)
                    } else {
                        0u8
                    },
            decreases width - x,
        {
            let val: u8 = mean_from_running_sums(&row_buffer, x, x_radius, Ghost(line));
            let ghost before = out@;
            store(&mut out, x, y, val);
            proof {
                lemma_put(before, x as int, y as int, val);
            }
            x = x + 1;
        }
        y = y + 1;
    }
    proof {
        lemma_raster_equal(out@, rows_done);
    }
    let mut col_buffer: Vec<u32> = vec![0; (height + 2 * y_radius) as usize];
    let mut x: u32 = 0;
    while x < width
        invariant
            source.width == width,
            source.height == height,
            height > 0,
            rows_done == row_pass(source, x_radius as int),
            rows_done.wf(),
            rows_done.width == width,
            rows_done.height == height,
            filtered == column_pass(rows_done, y_radius as int),
            filtered.wf(),
            0 <= x <= width,
            col_buffer@.len() == height + 2 * y_radius,
            col_buffer@.len() * 255 <= u32::MAX,
            out@.width == width,
            out@.height == height,
            out@.wf(),
            forall|a: int, b: int|
                0 <= a < width && 0 <= b < height ==> #[trigger] out@.at(a, b) == if a < x {
                    filtered.at(a, b)
                } else {
                    rows_done.at(a, b)
                },
        decreases width - x,
    {
        column_running_sum(&out, x, &mut col_buffer, y_radius);
        let ghost line = rows_done.column(x as int);
        assert(out@.column(x as int) =~= line);
        let mut y: u32 = 0;
        while y < height
            invariant
                source.width == width,
                source.height == height,
                rows_done == row_pass(source, x_radius as int),
                rows_done.wf(),
                rows_done.width == width,
                rows_done.height == height,
                filtered == column_pass(rows_done, y_radius as int),
                filtered.wf(),
                0 <= x < width,
                0 <= y <= height,
                line == rows_done.column(x as int),
                is_running_sum(col_buffer@, line, y_radius as int),
                col_buffer@.len() * 255 <= u32::MAX,
                out@.width == width,
                out@.height == height,
                out@.wf(),
                forall|a: int, b: int|
                    0 <= a < width && 0 <= b < height ==> #[trigger] out@.at(a, b) == if a < x || (a
                        == x && b < y) {
                        filtered.at(a, b)
                    } else {
                        rows_done.at(a, b)
                    },
            decreases height - y,
        {
            let val: u8 = mean_from_running_sums(&col_buffer, y, y_radius, Ghost(line));
            let ghost before = out@;
            store(&mut out, x, y, val);
            proof {
                lemma_put(before, x as int, y as int, val);
            }
            y = y + 1;
        }
        x = x + 1;
    }
    proof {
        lemma_raster_equal(out@, filtered);
    }
    out
}

/// Applies [`laplacian_filter`] where the running sums of the image fit in
/// 32 bits, and returns `None` where they do not.
pub fn try_laplacian_filter(
    image: &GrayImage,
    x_radius: u32,
    y_radius: u32,
) -> (res: Option<GrayImage>)
    ensures
        res is Some <==> filter_fits(image@, x_radius as int, y_radius as int),
        res matches Some(out) ==> {
            &&& out@ == box_filtered(image@, x_radius as int, y_radius as int)
            &&& forall|c: u8| image@.is_uniform(c) ==> out@ == image@
        },
{
    let (width, height): (u32, u32) = buffer_dimensions(image);
    let row_room: u64 = (width as u64 + 2 * (x_radius as u64)) * 255;
    let column_room: u64 = (height as u64 + 2 * (y_radius as u64)) * 255;
    if width == 0 || height == 0 || (row_room <= u32::MAX as u64 && column_room <= u32::MAX as u64) {
        Some(laplacian_filter(image, x_radius, y_radius))
    } else {
        None
    }
}

/// Over a line whose samples all equal `c`, every box mean is `c`.
pub proof fn lemma_box_mean_uniform(line: Seq<u8>, c: u8, center: int, radius: int)
    requires
        line.len() > 0,
        forall|i: int| 0 <= i < line.len() ==> line[i] == c,
        0 <= radius,
    ensures
        box_mean(line, center, radius) == c,
{
    let k = 2 * radius + 1;
    lemma_span_sum_uniform(line, c, center - radius, center + radius + 1);
    assert((c * k) / k == c) by (nonlinear_arith)
        requires
            k > 0,
    ;
}

/// Each pass of the filter leaves a raster of constant intensity as it is.
pub proof fn lemma_passes_preserve_uniform(r: Raster, c: u8, radius: int)
    requires
        r.wf(),
        r.is_uniform(c),
        0 <= radius,
    ensures
        row_pass(r, radius) == r,
        column_pass(r, radius) == r,
{
    let rows = row_pass(r, radius);
    let columns = column_pass(r, radius);
    lemma_from_fn(r.width, r.height, |x: int, y: int| box_mean(r.row(y), x, radius) as u8);
    lemma_from_fn(r.width, r.height, |x: int, y: int| box_mean(r.column(x), y, radius) as u8);
    assert forall|x: int, y: int| r.contains(x, y) implies rows.at(x, y) == r.at(x, y)
        && columns.at(x, y) == r.at(x, y) by {
        assert forall|i: int| 0 <= i < r.row(y).len() implies r.row(y)[i] == c by {
            assert(r.contains(i, y));
        }
        assert forall|i: int| 0 <= i < r.column(x).len() implies r.column(x)[i] == c by {
            assert(r.contains(x, i));
        }
        lemma_box_mean_uniform(r.row(y), c, x, radius);
        lemma_box_mean_uniform(r.column(x), c, y, radius);
    }
    lemma_raster_equal(rows, r);
    lemma_raster_equal(columns, r);
}

/// The filter leaves an image of constant intensity exactly as it is, for
/// every size of the image and every pair of radii: on a constant field
/// neither of the two roundings loses anything.
pub proof fn lemma_filter_preserves_uniform(r: Raster, c: u8, x_radius: int, y_radius: int)
    requires
        r.wf(),
        r.is_uniform(c),
        0 <= x_radius,
        0 <= y_radius,
    ensures
        box_filtered(r, x_radius, y_radius) == r,
{
    lemma_passes_preserve_uniform(r, c, x_radius);
    lemma_passes_preserve_uniform(r, c, y_radius);
}

/// The filter keeps the dimensions of every raster, also of one without
/// columns or rows, and its result is well formed.
pub proof fn lemma_filter_keeps_dimensions(r: Raster, x_radius: int, y_radius: int)
    ensures
        box_filtered(r, x_radius, y_radius).width == r.width,
        box_filtered(r, x_radius, y_radius).height == r.height,
        box_filtered(r, x_radius, y_radius).wf(),
{
    let rows = row_pass(r, x_radius);
    lemma_from_fn(r.width, r.height, |x: int, y: int| box_mean(r.row(y), x, x_radius) as u8);
    lemma_from_fn(
        rows.width,
        rows.height,
        |x: int, y: int| box_mean(rows.column(x), y, y_radius) as u8,
    );
}

} // verus!
