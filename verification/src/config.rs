//! Tunable parameters of the correlation search and of the preprocessor.

use vstd::prelude::*;

verus! {

/// Half-width of the correlation window, in pixels.
pub const CORR_CROSS_WIDTH: u32 = 5;

/// Half-height of the correlation window, in pixels.
pub const CORR_CROSS_HEIGHT: u32 = 5;

/// Lower bound of the valid disparities, in pixels. The search reports only
/// disparities strictly above it.
pub const CORR_MIN_VALID_DISPARITY: u32 = 10;

/// Largest disparity that the search reports, in pixels. Disparity maps
/// are 8-bit images, so this cannot exceed 255.
pub const CORR_MAX_VALID_DISPARITY: u32 = 200;

/// Numerator of the ratio that the minimum sum of absolute differences,
/// divided by the maximum, must stay below for a match to be valid.
pub const THR_MAX_RATIO_MIN_TO_MAX_SUM_DIFF_NUM: u32 = 35;

/// Denominator of the ratio that the minimum sum of absolute differences,
/// divided by the maximum, must stay below for a match to be valid.
pub const THR_MAX_RATIO_MIN_TO_MAX_SUM_DIFF_DEN: u32 = 100;

/// Radius of the box-filter kernel, in pixels.
pub const LAPLACIAN_FILTER_KERNEL_PX: u32 = 5;

/// The largest product of the two window half-extents for which the cost of
/// a full window still fits in 32 bits.
pub const MAX_WINDOW_QUARTER_AREA: u64 = 4_210_752;

/// The parameters of one run of the pipeline.
#[derive(Clone, Copy, Debug, PartialEq, Eq, Structural)]
pub struct Config {
    /// Half-width of the correlation window.
    pub cross_width: u32,
    /// Half-height of the correlation window.
    pub cross_height: u32,
    /// Lower bound of the disparities that are searched; only disparities
    /// strictly above it are found.
    pub min_valid_disparity: u32,
    /// Largest disparity that is searched and found.
    pub max_valid_disparity: u32,
    /// Numerator of the validity ratio: a match is accepted only where the
    /// smallest cost is less than this fraction of the largest cost.
    pub ratio_numerator: u32,
    /// Denominator of the validity ratio.
    pub ratio_denominator: u32,
    /// Radius of the box-filter kernel.
    pub filter_kernel_radius: u32,
}

impl Config {
    /// The largest cost that a correlation window can reach: every sample
    /// pair of a window of `2 * cross_width` columns and `2 * cross_height`
    /// rows differing by 255.
    pub open spec fn full_window_cost(self) -> int {
        (2 * self.cross_width) * (2 * self.cross_height) * 255
    }

    /// A configuration is well formed when every disparity it allows fits in
    /// an 8-bit sample, the cost of a full window fits in 32 bits, and the
    /// validity ratio has a denominator.
    pub open spec fn wf(self) -> bool {
        &&& self.max_valid_disparity <= u8::MAX
        &&& self.full_window_cost() <= u32::MAX
        &&& self.ratio_denominator > 0
    }

    /// The default parameters: a window of radius 5, disparities from 10 to
    /// 200, a validity ratio of 35/100 and a filter kernel of radius 5.
    pub open spec fn standard() -> Config {
        Config {
            cross_width: CORR_CROSS_WIDTH,
            cross_height: CORR_CROSS_HEIGHT,
            min_valid_disparity: CORR_MIN_VALID_DISPARITY,
            max_valid_disparity: CORR_MAX_VALID_DISPARITY,
            ratio_numerator: THR_MAX_RATIO_MIN_TO_MAX_SUM_DIFF_NUM,
            ratio_denominator: THR_MAX_RATIO_MIN_TO_MAX_SUM_DIFF_DEN,
            filter_kernel_radius: LAPLACIAN_FILTER_KERNEL_PX,
        }
    }

    /// Whether the configuration is well formed.
    pub fn is_valid(&self) -> (ok: bool)
        ensures
            ok == self.wf(),
    {
        assert(self.cross_width * self.cross_height <= 0xFFFF_FFFF * 0xFFFF_FFFF)
            by (nonlinear_arith)
            requires
                0 <= self.cross_width <= 0xFFFF_FFFF,
                0 <= self.cross_height <= 0xFFFF_FFFF,
        ;
        let quarter: u64 = (self.cross_width as u64) * (self.cross_height as u64);
        assert(self.full_window_cost() == 1020 * quarter) by (nonlinear_arith)
            requires
                quarter == self.cross_width * self.cross_height,
                self.full_window_cost() == (2 * self.cross_width) * (2 * self.cross_height) * 255,
        ;
        self.max_valid_disparity <= 255 && quarter <= MAX_WINDOW_QUARTER_AREA
            && self.ratio_denominator > 0
    }
}

impl Default for Config {
    fn default() -> (config: Config)
        ensures
            config == Config::standard(),
            config.wf(),
    {
        assert((2 * CORR_CROSS_WIDTH) * (2 * CORR_CROSS_HEIGHT) * 255 == 25_500) by (nonlinear_arith)
            requires
                CORR_CROSS_WIDTH == 5,
                CORR_CROSS_HEIGHT == 5,
        ;
        Config {
            cross_width: CORR_CROSS_WIDTH,
            cross_height: CORR_CROSS_HEIGHT,
            min_valid_disparity: CORR_MIN_VALID_DISPARITY,
            max_valid_disparity: CORR_MAX_VALID_DISPARITY,
            ratio_numerator: THR_MAX_RATIO_MIN_TO_MAX_SUM_DIFF_NUM,
            ratio_denominator: THR_MAX_RATIO_MIN_TO_MAX_SUM_DIFF_DEN,
            filter_kernel_radius: LAPLACIAN_FILTER_KERNEL_PX,
        }
    }
}

} // verus!
