//! The pixel correlation search and the assembly of the disparity map.
//!
//! For a pixel of the left image the search walks over a range of columns of
//! the right image, compares a window around each with the window around the
//! pixel, and reports the distance to the column whose window differs least.
//!
//! ```text
//! ----------------> X [ii]
//! |
//! |
//! v
//! Y [jj]
//! ```

use crate::config::Config;
use crate::cost::{
    lemma_equal_windows_cost_nothing, sum_of_abs_differences, window_cost, windows_agree_at,
};
use crate::gray::{blank_buffer, buffer_dimensions, store, GrayImage};
use crate::raster::{lemma_from_fn, lemma_put, lemma_raster_equal, Raster};
use crate::window::{lemma_shifted_window_bounds, shifted_window, window_offsets};
use vstd::prelude::*;

verus! {

/// The first right-image column that is searched for the left-image column
/// `x`: the one at the largest valid disparity, or column zero where the
/// image ends before it.
pub open spec fn search_start(x: int, config: Config) -> int {
    if x > config.max_valid_disparity {
        x - config.max_valid_disparity
    } else {
        0
    }
}

/// The end of the searched columns, itself not searched: the column at the
/// smallest valid disparity.
pub open spec fn search_end(x: int, config: Config) -> int {
    x - config.min_valid_disparity
}

/// The rows `[lo, hi)` of the correlation window around row `y`, none of
/// them below zero or at or beyond `y_max`.
pub open spec fn row_window(y: int, y_max: int, config: Config) -> (int, int) {
    let (lo, hi) = shifted_window(y, y, config.cross_height as int, y_max);
    (y + lo, y + hi)
}

/// The sum of absolute differences between the window around `(x, y)` in
/// `left` and the window around `(ii, y)` in `right`. Both windows are made
/// of the same column offsets, chosen so that neither reaches a column below
/// zero or at or beyond `x_max`.
pub open spec fn candidate_cost(
    left: Raster,
    right: Raster,
    x: int,
    y: int,
    ii: int,
    x_max: int,
    y_max: int,
    config: Config,
) -> int {
    let (k_lo, k_hi) = shifted_window(ii, x, config.cross_width as int, x_max);
    let (y_lo, y_hi) = row_window(y, y_max, config);
    window_cost(left, right, x, ii, k_lo, k_hi, y_lo, y_hi)
}

/// The costs of all candidates for the pixel `(x, y)`, in the order of the
/// search: entry `i` belongs to the right-image column `search_start + i`.
pub open spec fn candidate_costs(
    left: Raster,
    right: Raster,
    x: int,
    y: int,
    x_max: int,
    y_max: int,
    config: Config,
) -> Seq<int> {
    let first = search_start(x, config);
    Seq::new(
        (search_end(x, config) - first) as nat,
        |i: int| candidate_cost(left, right, x, y, first + i, x_max, y_max, config),
    )
}

/// Whether `i` is the first index at which `costs` is smallest.
pub open spec fn is_first_minimum(costs: Seq<int>, i: int) -> bool {
    &&& 0 <= i < costs.len()
    &&& forall|j: int| 0 <= j < costs.len() ==> costs[i] <= costs[j]
    &&& forall|j: int| 0 <= j < i ==> costs[i] < costs[j]
}

/// The first index at which `costs` is smallest.
pub open spec fn first_minimum(costs: Seq<int>) -> int {
    choose|i: int| is_first_minimum(costs, i)
}

/// Whether `m` is the largest value in `costs`.
pub open spec fn is_maximum(costs: Seq<int>, m: int) -> bool {
    &&& exists|i: int| 0 <= i < costs.len() && costs[i] == m
    &&& forall|j: int| 0 <= j < costs.len() ==> costs[j] <= m
}

/// The largest value in `costs`.
pub open spec fn maximum(costs: Seq<int>) -> int {
    choose|m: int| is_maximum(costs, m)
}

/// The validity gate: the costs must not all be zero, and the smallest cost
/// divided by the largest must lie below the ratio of the configuration,
/// `min_cost / max_cost < ratio_numerator / ratio_denominator` as fractions.
/// The best match has to be that much better than the worst.
pub open spec fn passes_ratio_test(min_cost: int, max_cost: int, config: Config) -> bool {
    max_cost != 0 && min_cost * config.ratio_denominator < config.ratio_numerator * max_cost
}

/// The disparity of the pixel `(x, y)`: the distance from `x` to the first
/// searched column of least cost, or zero where nothing is searched or the
/// validity gate rejects the match.
pub open spec fn disparity(
    left: Raster,
    right: Raster,
    x: int,
    y: int,
    x_max: int,
    y_max: int,
    config: Config,
) -> int {
    let first = search_start(x, config);
    if x < config.min_valid_disparity || search_end(x, config) <= first {
        0
    } else {
        let costs = candidate_costs(left, right, x, y, x_max, y_max, config);
        let best = first_minimum(costs);
        if passes_ratio_test(costs[best], maximum(costs), config) {
            x - (first + best)
        } else {
            0
        }
    }
}

/// At most one index is the first minimum.
pub proof fn lemma_first_minimum_unique(costs: Seq<int>, i: int)
    requires
        is_first_minimum(costs, i),
    ensures
        first_minimum(costs) == i,
{
    let j = first_minimum(costs);
    assert(is_first_minimum(costs, j));
    if j < i {
        assert(costs[i] < costs[j]);
    } else if i < j {
        assert(costs[j] < costs[i]);
    }
}

/// At most one value is the maximum.
pub proof fn lemma_maximum_unique(costs: Seq<int>, m: int)
    requires
        is_maximum(costs, m),
    ensures
        maximum(costs) == m,
{
    let n = maximum(costs);
    assert(is_maximum(costs, n));
}

/// Every sequence that is not empty has a first minimum.
pub proof fn lemma_first_minimum_exists(costs: Seq<int>)
    requires
        costs.len() > 0,
    ensures
        is_first_minimum(costs, first_minimum(costs)),
    decreases costs.len(),
{
    if costs.len() == 1 {
        assert(is_first_minimum(costs, 0));
    } else {
        let shorter = costs.drop_last();
        lemma_first_minimum_exists(shorter);
        let j = first_minimum(shorter);
        assert(forall|k: int| 0 <= k < shorter.len() ==> shorter[k] == costs[k]);
        if costs.last() < shorter[j] {
            assert(is_first_minimum(costs, costs.len() - 1));
        } else {
            assert(is_first_minimum(costs, j));
        }
    }
}

/// Every sequence that is not empty has a maximum.
pub proof fn lemma_maximum_exists(costs: Seq<int>)
    requires
        costs.len() > 0,
    ensures
        is_maximum(costs, maximum(costs)),
    decreases costs.len(),
{
    if costs.len() == 1 {
        assert(is_maximum(costs, costs[0]));
    } else {
        let shorter = costs.drop_last();
        lemma_maximum_exists(shorter);
        let m = maximum(shorter);
        let at = choose|i: int| 0 <= i < shorter.len() && shorter[i] == m;
        assert(forall|k: int| 0 <= k < shorter.len() ==> shorter[k] == costs[k]);
        if costs.last() > m {
            assert(is_maximum(costs, costs.last()));
        } else {
            assert(costs[at] == m);
            assert(is_maximum(costs, m));
        }
    }
}

/// For every pixel the disparity lies between zero and the largest valid
/// disparity of the configuration.
pub proof fn lemma_disparity_in_range(
    left: Raster,
    right: Raster,
    x: int,
    y: int,
    x_max: int,
    y_max: int,
    config: Config,
)
    requires
        0 <= x,
    ensures
        0 <= disparity(left, right, x, y, x_max, y_max, config) <= config.max_valid_disparity,
{
    let first = search_start(x, config);
    if !(x < config.min_valid_disparity || search_end(x, config) <= first) {
        lemma_first_minimum_exists(candidate_costs(left, right, x, y, x_max, y_max, config));
    }
}

/// A pixel whose column lies below the smallest valid disparity has
/// disparity zero.
pub proof fn lemma_disparity_zero_near_left_edge(
    left: Raster,
    right: Raster,
    x: int,
    y: int,
    x_max: int,
    y_max: int,
    config: Config,
)
    requires
        x < config.min_valid_disparity,
    ensures
        disparity(left, right, x, y, x_max, y_max, config) == 0,
{
}

/// Where every searched column costs at least `lo` and at most `hi`, and
/// `lo / hi` is not below the ratio of the configuration, the best match is
/// not clearly better than the worst and the disparity is zero.
pub proof fn lemma_ambiguous_match_is_rejected(
    left: Raster,
    right: Raster,
    x: int,
    y: int,
    x_max: int,
    y_max: int,
    config: Config,
    lo: int,
    hi: int,
)
    requires
        forall|ii: int|
            search_start(x, config) <= ii < search_end(x, config) ==> lo <= #[trigger] candidate_cost(
                left,
                right,
                x,
                y,
                ii,
                x_max,
                y_max,
                config,
            ) <= hi,
        lo * config.ratio_denominator >= config.ratio_numerator * hi,
    ensures
        disparity(left, right, x, y, x_max, y_max, config) == 0,
{
    let first = search_start(x, config);
    if !(x < config.min_valid_disparity || search_end(x, config) <= first) {
        let costs = candidate_costs(left, right, x, y, x_max, y_max, config);
        lemma_first_minimum_exists(costs);
        lemma_maximum_exists(costs);
        let least = costs[first_minimum(costs)];
        let most = maximum(costs);
        let at = choose|i: int| 0 <= i < costs.len() && costs[i] == most;
        assert(costs[at] == candidate_cost(left, right, x, y, first + at, x_max, y_max, config));
        assert(least * config.ratio_denominator >= config.ratio_numerator * most)
            by (nonlinear_arith)
            requires
                lo <= least,
                most <= hi,
                0 <= config.ratio_denominator,
                0 <= config.ratio_numerator,
                lo * config.ratio_denominator >= config.ratio_numerator * hi,
        ;
    }
}

/// The cost of a full window bounds the cost of every window that has no
/// more columns and rows.
pub proof fn lemma_window_fits(columns: int, rows: int, config: Config)
    requires
        config.wf(),
        0 <= columns <= 2 * config.cross_width,
        0 <= rows <= 2 * config.cross_height,
    ensures
        0 <= columns * (rows * 255) <= u32::MAX,
{
    assert(0 <= columns * (rows * 255) <= (2 * config.cross_width) * (2 * config.cross_height)
        * 255) by (nonlinear_arith)
        requires
            0 <= columns <= 2 * config.cross_width,
            0 <= rows <= 2 * config.cross_height,
    ;
}

/// Searches the right image for the window that matches the window around
/// `(pix_x, pix_y)` of the left image, and returns the disparity found.
/// Windows stay below column `x_max` and row `y_max`.
pub fn get_disparity_match(
    img_l_in: &GrayImage,
    img_r_in: &GrayImage,
    pix_x: u32,
    pix_y: u32,
    x_max: u32,
    y_max: u32,
    config: &Config,
) -> (disparity_distance: u8)
    requires
        config.wf(),
        img_l_in@.width == img_r_in@.width,
        img_l_in@.height == img_r_in@.height,
        x_max < img_l_in@.width,
        y_max < img_l_in@.height,
    ensures
        disparity_distance == disparity(
            img_l_in@,
            img_r_in@,
            pix_x as int,
            pix_y as int,
            x_max as int,
            y_max as int,
            *config,
        ),
        disparity_distance <= config.max_valid_disparity,
        pix_x < config.min_valid_disparity ==> disparity_distance == 0,
{
    /* Too close to the left edge of the image for any valid disparity */
    if pix_x < config.min_valid_disparity {
        return 0;
    }
    let xmax: u32 = pix_x - config.min_valid_disparity;
    let xmin: u32 = if pix_x > config.max_valid_disparity {
        pix_x - config.max_valid_disparity
    } else {
        0
    };
    /* No disparity value to explore */
    if xmax <= xmin {
        return 0;
    }
    /* Rows of the search window, the same for every disparity */
    let (row_lo, row_hi): (i64, i64) = window_offsets(pix_y, pix_y, config.cross_height, y_max);
    proof {
        lemma_shifted_window_bounds(
            pix_y as int,
            pix_y as int,
            config.cross_height as int,
            y_max as int,
        );
    }
    let corr_y_min: u32 = (pix_y as i64 + row_lo) as u32;
    let corr_y_max: u32 = (pix_y as i64 + row_hi) as u32;

    let ghost left = img_l_in@;
    let ghost right = img_r_in@;
    let ghost costs = candidate_costs(
        left,
        right,
        pix_x as int,
        pix_y as int,
        x_max as int,
        y_max as int,
        *config,
    );
    let ghost mut max_at: int = 0;
    /* Minimum and maximum SAD, and the column of the minimum SAD */
    let mut min_sum_abs_diff: u32 = 0;
    let mut disp_at_min_abs_diff: u32 = xmin;
    let mut max_sum_abs_diff: u32 = 0;
    let mut ii: u32 = xmin;
    while ii < xmax
        invariant
            config.wf(),
            left == img_l_in@,
            right == img_r_in@,
            left.width == right.width,
            left.height == right.height,
            x_max < left.width,
            y_max < left.height,
            xmin == search_start(pix_x as int, *config),
            xmax == search_end(pix_x as int, *config),
            xmin < xmax,
            xmin <= ii <= xmax,
            (corr_y_min as int, corr_y_max as int) == row_window(pix_y as int, y_max as int, *config),
            corr_y_max - corr_y_min <= 2 * config.cross_height,
            corr_y_min < corr_y_max ==> corr_y_max <= y_max,
            costs == candidate_costs(
                left,
                right,
                pix_x as int,
                pix_y as int,
                x_max as int,
                y_max as int,
                *config,
            ),
            xmin <= disp_at_min_abs_diff,
            ii > xmin ==> disp_at_min_abs_diff < ii,
            ii > xmin ==> min_sum_abs_diff == costs[disp_at_min_abs_diff - xmin],
            forall|j: int| 0 <= j < ii - xmin ==> min_sum_abs_diff <= costs[j],
            forall|j: int| 0 <= j < disp_at_min_abs_diff - xmin ==> min_sum_abs_diff < costs[j],
            ii > xmin ==> 0 <= max_at < ii - xmin && costs[max_at] == max_sum_abs_diff,
            forall|j: int| 0 <= j < ii - xmin ==> costs[j] <= max_sum_abs_diff,
        decreases xmax - ii,
    {
        /* Columns of the search window for the disparity candidate ii */
        let (corr_x_min, corr_x_max): (i64, i64) = window_offsets(
            ii,
            pix_x,
            config.cross_width,
            x_max,
        );
        proof {
            lemma_shifted_window_bounds(
                ii as int,
                pix_x as int,
                config.cross_width as int,
                x_max as int,
            );
            if corr_x_min < corr_x_max && corr_y_min < corr_y_max {
                lemma_window_fits(corr_x_max - corr_x_min, corr_y_max - corr_y_min, *config);
            }
        }
        let sum_of_differences: u32 = sum_of_abs_differences(
            img_l_in,
            img_r_in,
            pix_x,
            ii,
            corr_x_min,
            corr_x_max,
            corr_y_min,
            corr_y_max,
        );
        /* First candidate, or a sum smaller than the tracked minimum */
        if ii == xmin || sum_of_differences < min_sum_abs_diff {
            min_sum_abs_diff = sum_of_differences;
            disp_at_min_abs_diff = ii;
        }
        /* First candidate, or a sum larger than the tracked maximum */
        if ii == xmin || sum_of_differences > max_sum_abs_diff {
            max_sum_abs_diff = sum_of_differences;
            proof {
                max_at = ii - xmin;
            }
        }
        ii = ii + 1;
    }
    proof {
        assert(is_first_minimum(costs, disp_at_min_abs_diff - xmin));
        lemma_first_minimum_unique(costs, disp_at_min_abs_diff - xmin);
        assert(is_maximum(costs, max_sum_abs_diff as int));
        lemma_maximum_unique(costs, max_sum_abs_diff as int);
    }
    /* A region without texture: the cost tells no candidate from another */
    if max_sum_abs_diff == 0 {
        return 0;
    }
    /* Accept the minimum only if it passes the ratio test */
    assert(min_sum_abs_diff * config.ratio_denominator <= 0xFFFF_FFFF * 0xFFFF_FFFF
        && config.ratio_numerator * max_sum_abs_diff <= 0xFFFF_FFFF * 0xFFFF_FFFF)
        by (nonlinear_arith)
        requires
            0 <= min_sum_abs_diff <= 0xFFFF_FFFF,
            0 <= max_sum_abs_diff <= 0xFFFF_FFFF,
            0 <= config.ratio_denominator <= 0xFFFF_FFFF,
            0 <= config.ratio_numerator <= 0xFFFF_FFFF,
    ;
    let scaled_min: u64 = (min_sum_abs_diff as u64) * (config.ratio_denominator as u64);
    let scaled_max: u64 = (config.ratio_numerator as u64) * (max_sum_abs_diff as u64);
    if scaled_min < scaled_max {
        (pix_x - disp_at_min_abs_diff) as u8
    } else {
        0
    }
}

/// Why no disparity map could be made of two images.
#[derive(Clone, Copy, Debug, PartialEq, Eq, Structural)]
pub enum DisparityError {
    /// The images differ in width; both widths are given.
    WidthMismatch { left: u32, right: u32 },
    /// The images agree in width and differ in height; both heights are given.
    HeightMismatch { left: u32, right: u32 },
}

/// The sample of the disparity map at `(x, y)`: the disparity of that pixel,
/// searched below the last column and the last row, and zero in the last
/// column and the last row themselves.
pub open spec fn map_value(left: Raster, right: Raster, x: int, y: int, config: Config) -> u8 {
    if x < left.width - 1 && y < left.height - 1 {
        disparity(left, right, x, y, left.width - 1, left.height - 1, config) as u8
    } else {
        0u8
    }
}

/// The disparity map of two rasters of the same size.
pub open spec fn disparity_map(left: Raster, right: Raster, config: Config) -> Raster {
    Raster::from_fn(
        left.width,
        left.height,
        |x: int, y: int| map_value(left, right, x, y, config),
    )
}

/// What [`create_disparity_map`] answers for two rasters: the first
/// mismatch of their dimensions, width before height, or nothing where they
/// agree.
pub open spec fn dimension_mismatch(left: Raster, right: Raster) -> Option<DisparityError> {
    if left.width != right.width {
        Some(DisparityError::WidthMismatch { left: left.width as u32, right: right.width as u32 })
    } else if left.height != right.height {
        Some(
            DisparityError::HeightMismatch { left: left.height as u32, right: right.height as u32 },
        )
    } else {
        None
    }
}

/// Every sample of a disparity map lies between zero and the largest valid
/// disparity, and is zero in the columns below the smallest valid disparity.
pub proof fn lemma_map_value_in_range(left: Raster, right: Raster, x: int, y: int, config: Config)
    requires
        config.wf(),
        0 <= x,
    ensures
        map_value(left, right, x, y, config) <= config.max_valid_disparity,
        x < config.min_valid_disparity ==> map_value(left, right, x, y, config) == 0,
{
    lemma_disparity_in_range(left, right, x, y, left.width - 1, left.height - 1, config);
}

/// Builds the disparity map of a rectified stereo pair. The two images must
/// agree in width and in height; where they do not, nothing is computed and
/// the error names the two values that differ. The map has the dimensions
/// of the images; its last column and its last row stay zero.
pub fn create_disparity_map(
    img_left_in: &GrayImage,
    img_right_in: &GrayImage,
    config: &Config,
) -> (res: Result<GrayImage, DisparityError>)
    requires
        config.wf(),
    ensures
        match dimension_mismatch(img_left_in@, img_right_in@) {
            Some(mismatch) => res == Err::<GrayImage, DisparityError>(mismatch),
            None => res is Ok,
        },
        res matches Ok(map) ==> {
            &&& map@ == disparity_map(img_left_in@, img_right_in@, *config)
            &&& map@.width == img_left_in@.width
            &&& map@.height == img_left_in@.height
            &&& forall|x: int, y: int|
                map@.contains(x, y) ==> #[trigger] map@.at(x, y) <= config.max_valid_disparity
            &&& forall|x: int, y: int|
                map@.contains(x, y) && x < config.min_valid_disparity ==> #[trigger] map@.at(x, y)
                    == 0
        },
{
    let (xl, yl): (u32, u32) = buffer_dimensions(img_left_in);
    let (xr, yr): (u32, u32) = buffer_dimensions(img_right_in);

    /* Check that the dimensions of the left and the right image match */
    if xl != xr {
        return Err(DisparityError::WidthMismatch { left: xl, right: xr });
    } else if yl != yr {
        return Err(DisparityError::HeightMismatch { left: yl, right: yr });
    }
    let ghost left = img_left_in@;
    let ghost right = img_right_in@;

    /* Create the empty disparity map */
    let mut disparity_map: GrayImage = blank_buffer(xl, yl);
    let x_end: u32 = if xl > 0 {
        xl - 1
    } else {
        0
    };
    let y_end: u32 = if yl > 0 {
        yl - 1
    } else {
        0
    };
    let mut ii: u32 = 0;
    while ii < x_end
        invariant
            config.wf(),
            left == img_left_in@,
            right == img_right_in@,
            left.width == xl == right.width,
            left.height == yl == right.height,
            x_end == if xl > 0 { xl - 1 } else { 0 },
            y_end == if yl > 0 { yl - 1 } else { 0 },
            0 <= ii <= x_end,
            disparity_map@.width == xl,
            disparity_map@.height == yl,
            disparity_map@.wf(),
            forall|x: int, y: int|
                0 <= x < xl && 0 <= y < yl ==> #[trigger] disparity_map@.at(x, y) == if x < ii {
                    map_value(left, right, x, y, *config)
                } else {
                    0u8
                },
        decreases x_end - ii,
    {
        let mut jj: u32 = 0;
        while jj < y_end
            invariant
                config.wf(),
                left == img_left_in@,
                right == img_right_in@,
                left.width == xl == right.width,
                left.height == yl == right.height,
                x_end == xl - 1,
                y_end == if yl > 0 { yl - 1 } else { 0 },
                0 <= ii < x_end,
                0 <= jj <= y_end,
                disparity_map@.width == xl,
                disparity_map@.height == yl,
                disparity_map@.wf(),
                forall|x: int, y: int|
                    0 <= x < xl && 0 <= y < yl ==> #[trigger] disparity_map@.at(x, y) == if x < ii
                        || (x == ii && y < jj) {
                        map_value(left, right, x, y, *config)
                    } else {
                        0u8
                    },
            decreases y_end - jj,
        {
            /* Correlate the current pixel and store its disparity */
            let disparity_value: u8 = get_disparity_match(
                img_left_in,
                img_right_in,
                ii,
                jj,
                x_end,
                y_end,
                config,
            );
            let ghost before = disparity_map@;
            store(&mut disparity_map, ii, jj, disparity_value);
            proof {
                lemma_put(before, ii as int, jj as int, disparity_value);
            }
            jj = jj + 1;
        }
        ii = ii + 1;
    }
    proof {
        let expected = self::disparity_map(left, right, *config);
        lemma_from_fn(left.width, left.height, |x: int, y: int| map_value(left, right, x, y, *config));
        lemma_raster_equal(disparity_map@, expected);
        assert forall|x: int, y: int| disparity_map@.contains(x, y) implies {
            &&& #[trigger] disparity_map@.at(x, y) <= config.max_valid_disparity
            &&& x < config.min_valid_disparity ==> disparity_map@.at(x, y) == 0
        } by {
            lemma_map_value_in_range(left, right, x, y, *config);
        }
    }
    Ok(disparity_map)
}

/// On two identical images of constant intensity every sample of the
/// disparity map is zero: no candidate costs anything, so the largest cost
/// is zero and the validity gate rejects every match.
pub proof fn lemma_uniform_pair_has_no_disparity(left: Raster, right: Raster, c: u8, config: Config)
    requires
        left == right,
        left.is_uniform(c),
    ensures
        disparity_map(left, right, config) == Raster::blank(left.width, left.height),
{
    let map = disparity_map(left, right, config);
    let x_max = left.width - 1;
    let y_max = left.height - 1;
    lemma_from_fn(left.width, left.height, |x: int, y: int| map_value(left, right, x, y, config));
    lemma_from_fn(left.width, left.height, |x: int, y: int| 0u8);
    assert forall|x: int, y: int| map.contains(x, y) implies map.at(x, y) == 0 by {
        let first = search_start(x, config);
        let end = search_end(x, config);
        if x < x_max && y < y_max && !(x < config.min_valid_disparity || end <= first) {
            let costs = candidate_costs(left, right, x, y, x_max, y_max, config);
            assert forall|i: int| 0 <= i < costs.len() implies costs[i] == 0 by {
                let ii = first + i;
                let (k_lo, k_hi) = shifted_window(ii, x, config.cross_width as int, x_max);
                let (y_lo, y_hi) = row_window(y, y_max, config);
                lemma_shifted_window_bounds(ii, x, config.cross_width as int, x_max);
                lemma_shifted_window_bounds(y, y, config.cross_height as int, y_max);
                assert forall|k: int, yy: int|
                    k_lo <= k < k_hi && y_lo <= yy < y_hi implies #[trigger] windows_agree_at(
                    left,
                    right,
                    x,
                    ii,
                    k,
                    yy,
                ) by {
                    assert(left.contains(x + k, yy));
                    assert(left.contains(ii + k, yy));
                }
                lemma_equal_windows_cost_nothing(left, right, x, ii, k_lo, k_hi, y_lo, y_hi);
            }
            assert(costs[0] == 0);
            assert(is_maximum(costs, 0));
            lemma_maximum_unique(costs, 0);
        }
    }
    lemma_raster_equal(map, Raster::blank(left.width, left.height));
}

/// Where the right image is the left image moved by `d` columns, and no
/// other searched column matches the window around `(x, y)` without cost,
/// the disparity found at `(x, y)` is `d` exactly. The pixel must be far
/// enough from the left edge for the column at distance `d` and at least one
/// other column to be searched, and the ratio of the configuration must be
/// positive.
pub proof fn lemma_shifted_pair_recovers_offset(
    left: Raster,
    right: Raster,
    x: int,
    y: int,
    d: int,
    config: Config,
)
    requires
        left.width == right.width,
        left.height == right.height,
        0 <= x < left.width - 1,
        0 <= y < left.height - 1,
        forall|u: int, v: int|
            right.contains(u, v) && left.contains(u + d, v) ==> #[trigger] right.at(u, v)
                == left.at(u + d, v),
        search_start(x, config) <= x - d < search_end(x, config),
        search_end(x, config) - search_start(x, config) >= 2,
        forall|ii: int|
            search_start(x, config) <= ii < search_end(x, config) && ii != x - d
                ==> #[trigger] candidate_cost(
                left,
                right,
                x,
                y,
                ii,
                left.width - 1,
                left.height - 1,
                config,
            ) > 0,
        config.ratio_numerator > 0,
    ensures
        disparity(left, right, x, y, left.width - 1, left.height - 1, config) == d,
{
    let x_max = left.width - 1;
    let y_max = left.height - 1;
    let first = search_start(x, config);
    let ii = x - d;
    let costs = candidate_costs(left, right, x, y, x_max, y_max, config);
    let (k_lo, k_hi) = shifted_window(ii, x, config.cross_width as int, x_max);
    let (y_lo, y_hi) = row_window(y, y_max, config);
    lemma_shifted_window_bounds(ii, x, config.cross_width as int, x_max);
    lemma_shifted_window_bounds(y, y, config.cross_height as int, y_max);
    assert forall|k: int, yy: int|
        k_lo <= k < k_hi && y_lo <= yy < y_hi implies #[trigger] windows_agree_at(
        left,
        right,
        x,
        ii,
        k,
        yy,
    ) by {
        assert(right.at(ii + k, yy) == left.at(ii + k + d, yy));
    }
    lemma_equal_windows_cost_nothing(left, right, x, ii, k_lo, k_hi, y_lo, y_hi);
    assert(costs[ii - first] == 0);
    assert forall|j: int| 0 <= j < costs.len() && j != ii - first implies costs[j] > 0 by {
        assert(candidate_cost(left, right, x, y, first + j, x_max, y_max, config) > 0);
    }
    assert(is_first_minimum(costs, ii - first));
    lemma_first_minimum_unique(costs, ii - first);
    lemma_maximum_exists(costs);
    let other = if ii == first {
        1
    } else {
        0
    };
    assert(costs[other] > 0);
    assert(0 * config.ratio_denominator < config.ratio_numerator * maximum(costs))
        by (nonlinear_arith)
        requires
            maximum(costs) > 0,
            config.ratio_numerator > 0,
    ;
}

} // verus!
