use perception::config::Config;
use perception::gray::GrayImage;
use perception::perceptor::{create_disparity_map, DisparityError};

fn image_from_rows(rows: &[Vec<u8>]) -> GrayImage {
    let height: u32 = rows.len() as u32;
    let width: u32 = if rows.is_empty() { 0 } else { rows[0].len() as u32 };
    let mut img = GrayImage::new(width, height).unwrap();
    for (y, row) in rows.iter().enumerate() {
        for (x, v) in row.iter().enumerate() {
            assert!(img.put_pixel(x as u32, y as u32, *v));
        }
    }
    img
}

fn rows_of(img: &GrayImage) -> Vec<Vec<u8>> {
    let (width, height): (u32, u32) = img.dimensions();
    let mut rows: Vec<Vec<u8>> = Vec::new();
    for y in 0..height {
        let mut row: Vec<u8> = Vec::new();
        for x in 0..width {
            row.push(img.get_pixel(x, y).unwrap());
        }
        rows.push(row);
    }
    rows
}

fn uniform(width: u32, height: u32, value: u8) -> GrayImage {
    let mut img = GrayImage::new(width, height).unwrap();
    for y in 0..height {
        for x in 0..width {
            assert!(img.put_pixel(x, y, value));
        }
    }
    img
}

fn texture_rows(width: usize, height: usize, seed: u64) -> Vec<Vec<u8>> {
    let mut state: u64 = seed;
    let mut rows: Vec<Vec<u8>> = Vec::new();
    for _ in 0..height {
        let mut row: Vec<u8> = Vec::new();
        for _ in 0..width {
            state = (state * 1103515245 + 12345) % 2147483648;
            row.push(((state >> 16) & 0xFF) as u8);
        }
        rows.push(row);
    }
    rows
}

fn shifted_rows(rows: &[Vec<u8>], d: usize) -> Vec<Vec<u8>> {
    rows.iter()
        .map(|row| {
            (0..row.len())
                .map(|x| if x + d < row.len() { row[x + d] } else { 0 })
                .collect()
        })
        .collect()
}

fn loose_config() -> Config {
    let mut config = search_config();
    config.ratio_numerator = 9;
    config.ratio_denominator = 10;
    config
}

fn search_config() -> Config {
    Config {
        cross_width: 2,
        cross_height: 2,
        min_valid_disparity: 2,
        max_valid_disparity: 8,
        ratio_numerator: 35,
        ratio_denominator: 100,
        filter_kernel_radius: 2,
    }
}

#[test]
fn width_mismatch_is_reported_with_both_widths() {
    let left = GrayImage::new(100, 50).unwrap();
    let right = GrayImage::new(99, 50).unwrap();
    let res = create_disparity_map(&left, &right, &Config::default());
    assert_eq!(
        res.err(),
        Some(DisparityError::WidthMismatch { left: 100, right: 99 })
    );
}

#[test]
fn height_mismatch_is_reported_with_both_heights() {
    let left = GrayImage::new(20, 50).unwrap();
    let right = GrayImage::new(20, 51).unwrap();
    let res = create_disparity_map(&left, &right, &Config::default());
    assert_eq!(
        res.err(),
        Some(DisparityError::HeightMismatch { left: 50, right: 51 })
    );
}

#[test]
fn width_mismatch_is_reported_before_height_mismatch() {
    let left = GrayImage::new(20, 50).unwrap();
    let right = GrayImage::new(21, 51).unwrap();
    let res = create_disparity_map(&left, &right, &Config::default());
    assert_eq!(
        res.err(),
        Some(DisparityError::WidthMismatch { left: 20, right: 21 })
    );
}

#[test]
fn mismatch_against_an_empty_image_is_reported() {
    let left = GrayImage::new(0, 0).unwrap();
    let right = GrayImage::new(4, 4).unwrap();
    let res = create_disparity_map(&left, &right, &Config::default());
    assert_eq!(
        res.err(),
        Some(DisparityError::WidthMismatch { left: 0, right: 4 })
    );
}

#[test]
fn map_has_the_dimensions_of_the_input() {
    let config = search_config();
    for (width, height) in [(24u32, 7u32), (1, 1), (2, 9), (9, 2), (13, 1), (1, 13)] {
        let left = image_from_rows(&texture_rows(width as usize, height as usize, 1));
        let right = image_from_rows(&texture_rows(width as usize, height as usize, 2));
        let map = create_disparity_map(&left, &right, &config).unwrap();
        assert_eq!(map.dimensions(), (width, height));
    }
}

#[test]
fn map_of_images_without_columns_or_rows_is_empty() {
    let config = Config::default();
    for (width, height) in [(0u32, 0u32), (0, 6), (6, 0)] {
        let left = GrayImage::new(width, height).unwrap();
        let right = GrayImage::new(width, height).unwrap();
        let map = create_disparity_map(&left, &right, &config).unwrap();
        assert_eq!(map.dimensions(), (width, height));
    }
}

#[test]
fn map_of_a_single_pixel_is_zero() {
    let left = image_from_rows(&[vec![200]]);
    let right = image_from_rows(&[vec![3]]);
    let map = create_disparity_map(&left, &right, &Config::default()).unwrap();
    assert_eq!(rows_of(&map), vec![vec![0]]);
}

#[test]
fn map_of_a_shifted_texture_holds_the_shift() {
    let rows = texture_rows(24, 7, 7);
    assert_eq!(rows[0][..8], [108, 78, 116, 146, 19, 37, 34, 46]);
    let left = image_from_rows(&rows);
    let right = image_from_rows(&shifted_rows(&rows, 4));
    let map = create_disparity_map(&left, &right, &search_config()).unwrap();
    let mut searched: Vec<u8> = vec![4; 24];
    for x in [0usize, 1, 2, 3, 23] {
        searched[x] = 0;
    }
    let mut expected: Vec<Vec<u8>> = vec![searched; 6];
    expected.push(vec![0; 24]);
    assert_eq!(rows_of(&map), expected);
}

#[test]
fn map_of_unrelated_textures_is_rejected_by_the_ratio_test() {
    let left = image_from_rows(&texture_rows(24, 7, 7));
    let right = image_from_rows(&texture_rows(24, 7, 99));
    let map = create_disparity_map(&left, &right, &search_config()).unwrap();
    assert_eq!(rows_of(&map), vec![vec![0u8; 24]; 7]);
}

#[test]
fn map_of_unrelated_textures_under_a_loose_ratio() {
    let left = image_from_rows(&texture_rows(24, 7, 7));
    let right = image_from_rows(&texture_rows(24, 7, 99));
    let map = create_disparity_map(&left, &right, &loose_config()).unwrap();
    let top: Vec<u8> = vec![
        0, 0, 0, 0, 0, 0, 6, 7, 7, 7, 7, 7, 7, 7, 7, 7, 7, 7, 6, 6, 8, 3, 3, 0,
    ];
    let middle: Vec<u8> = vec![
        0, 0, 0, 0, 4, 4, 0, 4, 4, 7, 8, 7, 8, 8, 3, 8, 7, 7, 7, 5, 5, 5, 5, 0,
    ];
    let bottom: Vec<u8> = vec![
        0, 0, 0, 0, 0, 5, 5, 5, 5, 8, 8, 8, 8, 8, 5, 4, 7, 6, 6, 6, 8, 8, 8, 0,
    ];
    assert_eq!(
        rows_of(&map),
        vec![
            top.clone(),
            top.clone(),
            top,
            middle,
            bottom.clone(),
            bottom,
            vec![0; 24],
        ]
    );
}

#[test]
fn last_row_and_last_column_of_the_map_are_zero() {
    let left = image_from_rows(&texture_rows(24, 7, 7));
    let right = image_from_rows(&texture_rows(24, 7, 99));
    let map = create_disparity_map(&left, &right, &loose_config()).unwrap();
    for x in 0..24u32 {
        assert_eq!(map.get_pixel(x, 6), Some(0));
    }
    for y in 0..7u32 {
        assert_eq!(map.get_pixel(23, y), Some(0));
    }
    assert_ne!(map.get_pixel(22, 5), Some(0));
}

#[test]
fn every_sample_of_the_map_is_a_valid_disparity() {
    for config in [search_config(), loose_config()] {
        for seed in 1..6u64 {
            let left = image_from_rows(&texture_rows(30, 6, seed));
            let right = image_from_rows(&texture_rows(30, 6, seed + 100));
            let map = create_disparity_map(&left, &right, &config).unwrap();
            for row in rows_of(&map) {
                for (x, d) in row.iter().enumerate() {
                    assert!(*d <= 8);
                    if x < 2 {
                        assert_eq!(*d, 0);
                    }
                }
            }
        }
    }
}

#[test]
fn columns_left_of_the_smallest_disparity_are_zero() {
    let rows = texture_rows(40, 5, 21);
    let left = image_from_rows(&rows);
    let right = image_from_rows(&shifted_rows(&rows, 15));
    let map = create_disparity_map(&left, &right, &Config::default()).unwrap();
    for y in 0..5u32 {
        for x in 0..10u32 {
            assert_eq!(map.get_pixel(x, y), Some(0));
        }
    }
    assert_eq!(map.get_pixel(30, 2), Some(15));
}

#[test]
fn identical_uniform_images_give_an_all_zero_map() {
    let left = uniform(400, 3, 77);
    let right = uniform(400, 3, 77);
    let map = create_disparity_map(&left, &right, &Config::default()).unwrap();
    assert_eq!(map.dimensions(), (400, 3));
    assert_eq!(rows_of(&map), vec![vec![0u8; 400]; 3]);
}

#[test]
fn identical_uniform_images_of_any_width_give_an_all_zero_map() {
    let config = search_config();
    for width in [1u32, 2, 5, 16, 33] {
        let left = uniform(width, 6, 255);
        let right = uniform(width, 6, 255);
        let map = create_disparity_map(&left, &right, &config).unwrap();
        assert_eq!(rows_of(&map), vec![vec![0u8; width as usize]; 6]);
    }
}

#[test]
fn narrow_images_are_mapped_without_leaving_them() {
    let left = image_from_rows(&texture_rows(6, 3, 5));
    let right = image_from_rows(&texture_rows(6, 3, 6));
    let mut config = Config::default();
    config.min_valid_disparity = 1;
    config.ratio_numerator = 9;
    config.ratio_denominator = 10;
    let map = create_disparity_map(&left, &right, &config).unwrap();
    assert_eq!(
        rows_of(&map),
        vec![
            vec![0, 0, 0, 3, 4, 0],
            vec![0, 0, 0, 3, 4, 0],
            vec![0, 0, 0, 0, 0, 0],
        ]
    );
}

#[test]
fn inputs_are_left_untouched() {
    let rows = texture_rows(16, 5, 3);
    let left = image_from_rows(&rows);
    let right = image_from_rows(&shifted_rows(&rows, 3));
    let _map = create_disparity_map(&left, &right, &search_config()).unwrap();
    assert_eq!(rows_of(&left), rows);
    assert_eq!(rows_of(&right), shifted_rows(&rows, 3));
}

fn naive_window(near: i64, far: i64, half: i64, limit: i64) -> (i64, i64) {
    let mut lo: i64 = -half;
    let mut hi: i64 = half;
    if near + lo < 0 {
        hi -= near + lo;
        lo = -near;
    } else if far + hi > limit {
        lo -= far + hi - limit;
        hi = limit - far;
    }
    (lo.max(-near), hi.min(limit - far))
}

fn naive_disparity(
    left: &[Vec<u8>],
    right: &[Vec<u8>],
    x: i64,
    y: i64,
    config: &Config,
) -> u8 {
    let x_max: i64 = left[0].len() as i64 - 1;
    let y_max: i64 = left.len() as i64 - 1;
    let min_d: i64 = config.min_valid_disparity as i64;
    let max_d: i64 = config.max_valid_disparity as i64;
    let mut costs: Vec<(u64, i64)> = Vec::new();
    for d in (min_d + 1..=max_d.min(x)).rev() {
        let ii: i64 = x - d;
        let (k_lo, k_hi) = naive_window(ii, x, config.cross_width as i64, x_max);
        let (r_lo, r_hi) = naive_window(y, y, config.cross_height as i64, y_max);
        let mut cost: u64 = 0;
        for k in k_lo..k_hi {
            for r in r_lo..r_hi {
                let a: i64 = left[(y + r) as usize][(x + k) as usize] as i64;
                let b: i64 = right[(y + r) as usize][(ii + k) as usize] as i64;
                cost += (a - b).unsigned_abs();
            }
        }
        costs.push((cost, d));
    }
    let smallest = costs.iter().map(|c| c.0).min();
    let largest = costs.iter().map(|c| c.0).max();
    match (smallest, largest) {
        (Some(lo), Some(hi)) if hi > 0 => {
            let accepted: bool =
                lo * (config.ratio_denominator as u64) < (config.ratio_numerator as u64) * hi;
            let best = costs.iter().find(|c| c.0 == lo).unwrap();
            if accepted {
                best.1 as u8
            } else {
                0
            }
        }
        _ => 0,
    }
}

#[test]
fn map_agrees_with_a_plain_search() {
    let mut wide = search_config();
    wide.cross_width = 3;
    wide.cross_height = 1;
    wide.min_valid_disparity = 0;
    wide.max_valid_disparity = 5;
    wide.ratio_numerator = 3;
    wide.ratio_denominator = 4;
    let mut all = search_config();
    all.ratio_numerator = 7;
    all.ratio_denominator = 5;
    let configs: [Config; 4] = [search_config(), loose_config(), wide, all];
    let sizes: [(usize, usize); 5] = [(17, 6), (3, 3), (2, 2), (9, 12), (30, 4)];
    for (c, config) in configs.iter().enumerate() {
        for (s, (width, height)) in sizes.iter().enumerate() {
            let seed: u64 = (10 * c + s) as u64 + 1;
            let left_rows = texture_rows(*width, *height, seed);
            let right_rows = texture_rows(*width, *height, seed + 500);
            let map = create_disparity_map(
                &image_from_rows(&left_rows),
                &image_from_rows(&right_rows),
                config,
            )
            .unwrap();
            let rows = rows_of(&map);
            for y in 0..*height {
                for x in 0..*width {
                    let expected: u8 = if x + 1 < *width && y + 1 < *height {
                        naive_disparity(&left_rows, &right_rows, x as i64, y as i64, config)
                    } else {
                        0
                    };
                    assert_eq!(rows[y][x], expected);
                }
            }
        }
    }
}
