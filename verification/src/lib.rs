//! Block-matching stereo disparity with a separable box-filter preprocessor.

pub mod config;
pub mod cost;
pub mod filter;
pub mod gray;
pub mod perceptor;
pub mod raster;
pub mod running_sum;
pub mod util;
pub mod window;
