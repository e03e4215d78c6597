use image_blend::raster::{BlendError, BlendImage, BlendManager, ImageIterator, Rgb8, Rgba8};

fn two_by_two() -> BlendImage {
    BlendImage::from_raw(
        vec![
            10, 20, 30, 255, 40, 50, 60, 128, 70, 80, 90, 0, 200, 100, 50, 255,
        ],
        2,
        2,
    )
    .unwrap()
}

#[test]
fn raw_buffer_must_match_size() {
    assert!(BlendImage::from_raw(vec![0; 16], 2, 2).is_some());
    assert!(BlendImage::from_raw(vec![0; 15], 2, 2).is_none());
    assert!(BlendImage::from_raw(vec![0; 20], 2, 2).is_none());
    assert!(BlendImage::from_raw(vec![], 0, 5).is_some());
    let img = BlendImage::from_raw(vec![0; 24], 3, 2).unwrap();
    assert_eq!(img.get_width(), 3);
    assert_eq!(img.get_height(), 2);
}

#[test]
fn pixels_are_read_row_major() {
    let img = two_by_two();
    assert_eq!(img.pixel(1), Rgba8 { r: 40, g: 50, b: 60, a: 128 });
    assert_eq!(img.pixel(3), Rgba8 { r: 200, g: 100, b: 50, a: 255 });
}

#[test]
fn identity_adjustment_leaves_image_unchanged() {
    let mut img = two_by_two();
    let before = img.raw_pixels().clone();
    BlendManager::enchance(&mut img, |p: Rgba8| Rgb8 { r: p.r, g: p.g, b: p.b });
    assert_eq!(img.raw_pixels(), &before);
}

#[test]
fn adjustment_keeps_alpha() {
    let mut img = two_by_two();
    BlendManager::enchance(&mut img, |p: Rgba8| Rgb8 {
        r: 255 - p.r,
        g: 255 - p.g,
        b: 255 - p.b,
    });
    assert_eq!(
        img.into_raw(),
        vec![245, 235, 225, 255, 215, 205, 195, 128, 185, 175, 165, 0, 55, 155, 205, 255]
    );
}

#[test]
fn blend_of_different_sizes_fails_untouched() {
    let mut base = two_by_two();
    let before = base.raw_pixels().clone();
    let wide = BlendImage::from_raw(vec![1; 8], 2, 1).unwrap();
    let tall = BlendImage::from_raw(vec![1; 32], 2, 4).unwrap();
    let op = |_: Rgba8, _: Rgba8| Rgb8 { r: 0, g: 0, b: 0 };
    assert_eq!(BlendManager::blend(&mut base, &wide, op), Err(BlendError::SizeMismatch));
    assert_eq!(BlendManager::blend(&mut base, &tall, op), Err(BlendError::SizeMismatch));
    assert_eq!(base.raw_pixels(), &before);
    assert_eq!(
        BlendError::SizeMismatch.message(),
        "the size of blend images must be the same"
    );
}

#[test]
fn blend_keeps_base_alpha() {
    let mut base = two_by_two();
    let top = BlendImage::from_raw(vec![9; 16], 2, 2).unwrap();
    let op = |p: Rgba8, q: Rgba8| Rgb8 { r: q.r, g: p.a, b: q.a };
    assert_eq!(BlendManager::blend(&mut base, &top, op), Ok(()));
    assert_eq!(
        base.into_raw(),
        vec![9, 255, 9, 255, 9, 128, 9, 128, 9, 0, 9, 0, 9, 255, 9, 255]
    );
}

#[test]
fn multiply_scenario_through_the_blend_pass() {
    let mut base = BlendImage::from_raw(vec![200, 100, 50, 255], 1, 1).unwrap();
    let top = BlendImage::from_raw(vec![50, 200, 100, 255], 1, 1).unwrap();
    let multiply = |p: Rgba8, q: Rgba8| {
        let ch = |x: u8, y: u8| ((x as f32 / 255.0) * (y as f32 / 255.0) * 255.0) as u8;
        Rgb8 { r: ch(p.r, q.r), g: ch(p.g, q.g), b: ch(p.b, q.b) }
    };
    assert_eq!(BlendManager::blend(&mut base, &top, multiply), Ok(()));
    assert_eq!(base.pixel(0), Rgba8 { r: 39, g: 78, b: 19, a: 255 });
}

#[test]
fn bands_split_channels() {
    let (r, g, b, a) = two_by_two().bands();
    assert_eq!(r, vec![10, 40, 70, 200]);
    assert_eq!(g, vec![20, 50, 80, 100]);
    assert_eq!(b, vec![30, 60, 90, 50]);
    assert_eq!(a, vec![255, 128, 0, 255]);
}

#[test]
fn walk_visits_columns_then_rows() {
    let mut it = ImageIterator::new(2, 3);
    let mut seen = Vec::new();
    while let Some(c) = it.next() {
        seen.push(c);
    }
    assert_eq!(seen, vec![(0, 0), (0, 1), (0, 2), (1, 0), (1, 1), (1, 2)]);
    assert_eq!(it.next(), None);
    let mut empty = ImageIterator::with_dimension(&(4, 0));
    assert_eq!(empty.next(), None);
}
