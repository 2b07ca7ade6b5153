//! The matching cost of two windows: the sum of the absolute differences of
//! their samples.

use crate::gray::{sample, GrayImage};
use crate::raster::Raster;
use vstd::prelude::*;

verus! {

/// The absolute difference of two samples.
pub open spec fn abs_diff(a: u8, b: u8) -> int {
    if a >= b {
        a - b
    } else {
        b - a
    }
}

/// The sum of the absolute differences between column `xl` of `left` and
/// column `xr` of `right` over the rows `[y_lo, y_hi)`.
pub open spec fn column_cost(left: Raster, right: Raster, xl: int, xr: int, y_lo: int, y_hi: int) -> int
    decreases y_hi - y_lo,
{
    if y_hi <= y_lo {
        0
    } else {
        column_cost(left, right, xl, xr, y_lo, y_hi - 1)
            + abs_diff(left.at(xl, y_hi - 1), right.at(xr, y_hi - 1))
    }
}

/// The sum of the absolute differences between the window of `left` around
/// column `x` and the window of `right` around column `ii`, both made of
/// the column offsets `[k_lo, k_hi)` and the rows `[y_lo, y_hi)`.
pub open spec fn window_cost(
    left: Raster,
    right: Raster,
    x: int,
    ii: int,
    k_lo: int,
    k_hi: int,
    y_lo: int,
    y_hi: int,
) -> int
    decreases k_hi - k_lo,
{
    if k_hi <= k_lo {
        0
    } else {
        window_cost(left, right, x, ii, k_lo, k_hi - 1, y_lo, y_hi)
            + column_cost(left, right, x + k_hi - 1, ii + k_hi - 1, y_lo, y_hi)
    }
}

/// Whether the window around column `x` of `left` and the window around
/// column `ii` of `right` hold the same sample at column offset `k` of row
/// `yy`.
pub open spec fn windows_agree_at(left: Raster, right: Raster, x: int, ii: int, k: int, yy: int) -> bool {
    left.at(x + k, yy) == right.at(ii + k, yy)
}

/// A window without rows costs nothing.
pub proof fn lemma_window_cost_no_rows(
    left: Raster,
    right: Raster,
    x: int,
    ii: int,
    k_lo: int,
    k_hi: int,
    y_lo: int,
    y_hi: int,
)
    requires
        y_hi <= y_lo,
    ensures
        window_cost(left, right, x, ii, k_lo, k_hi, y_lo, y_hi) == 0,
    decreases k_hi - k_lo,
{
    if k_lo < k_hi {
        lemma_window_cost_no_rows(left, right, x, ii, k_lo, k_hi - 1, y_lo, y_hi);
    }
}

/// Two window columns that agree on every sample cost nothing.
pub proof fn lemma_equal_columns_cost_nothing(
    left: Raster,
    right: Raster,
    x: int,
    ii: int,
    k: int,
    y_lo: int,
    y_hi: int,
)
    requires
        forall|yy: int| y_lo <= yy < y_hi ==> #[trigger] windows_agree_at(left, right, x, ii, k, yy),
    ensures
        column_cost(left, right, x + k, ii + k, y_lo, y_hi) == 0,
    decreases y_hi - y_lo,
{
    if y_lo < y_hi {
        lemma_equal_columns_cost_nothing(left, right, x, ii, k, y_lo, y_hi - 1);
        assert(windows_agree_at(left, right, x, ii, k, y_hi - 1));
    }
}

/// Two windows that agree on every sample cost nothing.
pub proof fn lemma_equal_windows_cost_nothing(
    left: Raster,
    right: Raster,
    x: int,
    ii: int,
    k_lo: int,
    k_hi: int,
    y_lo: int,
    y_hi: int,
)
    requires
        forall|k: int, yy: int|
            k_lo <= k < k_hi && y_lo <= yy < y_hi
                ==> #[trigger] windows_agree_at(left, right, x, ii, k, yy),
    ensures
        window_cost(left, right, x, ii, k_lo, k_hi, y_lo, y_hi) == 0,
    decreases k_hi - k_lo,
{
    if k_lo < k_hi {
        lemma_equal_windows_cost_nothing(left, right, x, ii, k_lo, k_hi - 1, y_lo, y_hi);
        lemma_equal_columns_cost_nothing(left, right, x, ii, k_hi - 1, y_lo, y_hi);
    }
}

/// The sum of the absolute differences between the window around column
/// `pix_x` of `img_l` and the window around column `ii` of `img_r`. Both
/// windows are made of the column offsets `[k_lo, k_hi)` and the rows
/// `[y_lo, y_hi)`. A window that is not empty must lie inside the images,
/// and its largest possible cost must fit in 32 bits.
pub fn sum_of_abs_differences(
    img_l: &GrayImage,
    img_r: &GrayImage,
    pix_x: u32,
    ii: u32,
    k_lo: i64,
    k_hi: i64,
    y_lo: u32,
    y_hi: u32,
) -> (total: u32)
    requires
        img_l@.width == img_r@.width,
        img_l@.height == img_r@.height,
        k_lo < k_hi && y_lo < y_hi ==> {
            &&& 0 <= ii + k_lo
            &&& 0 <= pix_x + k_lo
            &&& ii + k_hi <= img_l@.width
            &&& pix_x + k_hi <= img_l@.width
            &&& y_hi <= img_l@.height
            &&& (k_hi - k_lo) * ((y_hi - y_lo) * 255) <= u32::MAX
        },
    ensures
        total == window_cost(
            img_l@,
            img_r@,
            pix_x as int,
            ii as int,
            k_lo as int,
            k_hi as int,
            y_lo as int,
            y_hi as int,
        ),
{
    let ghost left = img_l@;
    let ghost right = img_r@;
    if k_hi <= k_lo {
        return 0;
    }
    if y_hi <= y_lo {
        proof {
            lemma_window_cost_no_rows(
                left,
                right,
                pix_x as int,
                ii as int,
                k_lo as int,
                k_hi as int,
                y_lo as int,
                y_hi as int,
            );
        }
        return 0;
    }
    let ghost column_limit: int = (y_hi - y_lo) * 255;
    let mut total: u32 = 0;
    let mut k: i64 = k_lo;
    while k < k_hi
        invariant
            left == img_l@,
            right == img_r@,
            left.width == right.width,
            left.height == right.height,
            k_lo <= k <= k_hi,
            y_lo < y_hi <= left.height,
            0 <= ii + k_lo,
            0 <= pix_x + k_lo,
            ii + k_hi <= left.width,
            pix_x + k_hi <= left.width,
            column_limit == (y_hi - y_lo) * 255,
            (k_hi - k_lo) * column_limit <= u32::MAX,
            total <= (k - k_lo) * column_limit,
            total == window_cost(
                left,
                right,
                pix_x as int,
                ii as int,
                k_lo as int,
                k as int,
                y_lo as int,
                y_hi as int,
            ),
        decreases k_hi - k,
    {
        let xl: u32 = (pix_x as i64 + k) as u32;
        let xr: u32 = (ii as i64 + k) as u32;
        proof {
            let done = k - k_lo;
            let all = k_hi - k_lo;
            assert(0 <= done * column_limit && (done + 1) * column_limit == done * column_limit
                + column_limit && (done + 1) * column_limit <= all * column_limit)
                by (nonlinear_arith)
                requires
                    0 <= done < all,
                    0 <= column_limit,
            ;
        }
        let mut column: u32 = 0;
        let mut ll: u32 = y_lo;
        while ll < y_hi
            invariant
                left == img_l@,
                right == img_r@,
                left.height == right.height,
                y_lo <= ll <= y_hi <= left.height,
                xl < left.width,
                xr < right.width,
                (y_hi - y_lo) * 255 <= u32::MAX,
                column <= (ll - y_lo) * 255,
                column == column_cost(left, right, xl as int, xr as int, y_lo as int, ll as int),
            decreases y_hi - ll,
        {
            let a: u8 = sample(img_l, xl, ll);
            let b: u8 = sample(img_r, xr, ll);
            let diff: u8 = if a >= b {
                a - b
            } else {
                b - a
            };
            column = column + diff as u32;
            ll = ll + 1;
        }
        total = total + column;
        k = k + 1;
    }
    total
}

} // verus!
