use perception::gray::GrayImage;

fn image_from_rows(rows: &[Vec<u8>]) -> GrayImage {
    let height: u32 = rows.len() as u32;
    let width: u32 = if rows.is_empty() { 0 } else { rows[0].len() as u32 };
    let mut img = GrayImage::new(width, height).unwrap();
    for (y, row) in rows.iter().enumerate() {
        for (x, v) in row.iter().enumerate() {
            assert!(img.put_pixel(x as u32, y as u32, *v));
        }
    }
    img
}

#[test]
fn new_image_has_requested_dimensions_and_is_black() {
    let img = GrayImage::new(7, 3).unwrap();
    assert_eq!(img.dimensions(), (7, 3));
    assert_eq!(img.width(), 7);
    assert_eq!(img.height(), 3);
    for y in 0..3u32 {
        for x in 0..7u32 {
            assert_eq!(img.get_pixel(x, y), Some(0));
        }
    }
}

#[test]
fn new_image_may_have_no_columns_or_rows() {
    let no_columns = GrayImage::new(0, 5).unwrap();
    assert_eq!(no_columns.dimensions(), (0, 5));
    assert_eq!(no_columns.get_pixel(0, 0), None);
    let no_rows = GrayImage::new(5, 0).unwrap();
    assert_eq!(no_rows.dimensions(), (5, 0));
    assert_eq!(no_rows.get_pixel(0, 0), None);
    let nothing = GrayImage::new(0, 0).unwrap();
    assert_eq!(nothing.dimensions(), (0, 0));
}

#[test]
fn put_pixel_changes_one_sample_only() {
    let mut img = GrayImage::new(4, 3).unwrap();
    assert!(img.put_pixel(2, 1, 99));
    for y in 0..3u32 {
        for x in 0..4u32 {
            let expected: u8 = if x == 2 && y == 1 { 99 } else { 0 };
            assert_eq!(img.get_pixel(x, y), Some(expected));
        }
    }
    assert!(img.put_pixel(2, 1, 7));
    assert_eq!(img.get_pixel(2, 1), Some(7));
    assert_eq!(img.dimensions(), (4, 3));
}

#[test]
fn put_pixel_outside_the_image_is_refused() {
    let mut img = GrayImage::new(4, 3).unwrap();
    assert!(!img.put_pixel(4, 0, 1));
    assert!(!img.put_pixel(0, 3, 1));
    assert!(!img.put_pixel(u32::MAX, u32::MAX, 1));
    for y in 0..3u32 {
        for x in 0..4u32 {
            assert_eq!(img.get_pixel(x, y), Some(0));
        }
    }
}

#[test]
fn get_pixel_outside_the_image_is_none() {
    let img = image_from_rows(&[vec![1, 2], vec![3, 4]]);
    assert_eq!(img.get_pixel(0, 0), Some(1));
    assert_eq!(img.get_pixel(1, 0), Some(2));
    assert_eq!(img.get_pixel(0, 1), Some(3));
    assert_eq!(img.get_pixel(1, 1), Some(4));
    assert_eq!(img.get_pixel(2, 0), None);
    assert_eq!(img.get_pixel(0, 2), None);
}

#[test]
fn samples_are_addressed_by_column_then_row() {
    let mut img = GrayImage::new(3, 2).unwrap();
    assert!(img.put_pixel(2, 0, 20));
    assert!(img.put_pixel(0, 1, 1));
    assert_eq!(img.get_pixel(2, 0), Some(20));
    assert_eq!(img.get_pixel(0, 1), Some(1));
    assert_eq!(img.get_pixel(1, 0), Some(0));
    assert_eq!(img.get_pixel(2, 1), Some(0));
}

#[test]
fn image_too_large_for_a_vector_is_refused() {
    assert!(GrayImage::new(u32::MAX, u32::MAX).is_none());
}
