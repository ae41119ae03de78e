use yas_scan::frame::{
    crop, fingerprint, intensity_range, normalize, prepare_field, resize_to_field, GrayImage, FIELD_HEIGHT,
};
use yas_scan::geometry::FieldRect;

fn image(width: usize, height: usize) -> GrayImage {
    let pixels: Vec<u8> = (0..width * height).map(|i| i as u8).collect();
    GrayImage::from_pixels(width, height, &pixels).unwrap()
}

#[test]
fn from_pixels_checks_the_count() {
    assert!(GrayImage::from_pixels(3, 2, &vec![0; 5]).is_none());
    let img = GrayImage::from_pixels(3, 2, &vec![1, 2, 3, 4, 5, 6]).unwrap();
    assert_eq!(img.rows, vec![vec![1, 2, 3], vec![4, 5, 6]]);
    assert_eq!(img.height(), 2);
}

#[test]
fn crop_inside() {
    let img = image(4, 3);
    let c = crop(&img, FieldRect { left: 1, top: 1, width: 2, height: 2 });
    assert_eq!(c.width, 2);
    assert_eq!(c.rows, vec![vec![5, 6], vec![9, 10]]);
}

#[test]
fn crop_clamps_to_frame() {
    let img = image(4, 3);
    let c = crop(&img, FieldRect { left: 2, top: -1, width: 10, height: 3 });
    assert_eq!(c.width, 2);
    assert_eq!(c.rows, vec![vec![2, 3], vec![6, 7]]);
    let d = crop(&img, FieldRect { left: -3, top: 2, width: 5, height: 100 });
    assert_eq!(d.rows, vec![vec![8, 9]]);
}

#[test]
fn crop_outside_is_empty() {
    let img = image(4, 3);
    let c = crop(&img, FieldRect { left: 10, top: 10, width: 5, height: 5 });
    assert_eq!(c.width, 0);
    assert_eq!(c.height(), 0);
}

#[test]
fn normalize_stretches_intensity() {
    let img = GrayImage::from_pixels(3, 1, &vec![10, 20, 30]).unwrap();
    assert_eq!(intensity_range(&img), Some((10, 30)));
    let n = normalize(&img);
    assert_eq!(n.rows, vec![vec![0, 127, 255]]);
}

#[test]
fn normalize_flat_image_is_black() {
    let img = GrayImage::from_pixels(2, 2, &vec![77; 4]).unwrap();
    let n = normalize(&img);
    assert_eq!(n.rows, vec![vec![0, 0], vec![0, 0]]);
}

#[test]
fn normalize_empty_image() {
    let img = GrayImage::from_pixels(0, 0, &vec![]).unwrap();
    assert_eq!(intensity_range(&img), None);
    assert_eq!(normalize(&img).height(), 0);
}

#[test]
fn resize_keeps_aspect() {
    let img = GrayImage::from_pixels(2, 1, &vec![10, 200]).unwrap();
    let r = resize_to_field(&img);
    assert_eq!(r.width, 64);
    assert_eq!(r.height(), FIELD_HEIGHT);
    for row in &r.rows {
        assert_eq!(row.len(), 64);
        assert_eq!(row[0], 10);
        assert_eq!(row[31], 10);
        assert_eq!(row[32], 200);
        assert_eq!(row[63], 200);
    }
}

#[test]
fn resize_wide_field_is_not_squeezed() {
    let img = GrayImage::from_pixels(100, 2, &(0..200).map(|i| i as u8).collect()).unwrap();
    let r = resize_to_field(&img);
    // 100 * 32 / 2 columns
    assert_eq!(r.width, 1600);
    assert_eq!(r.rows[0].len(), 1600);
    assert_eq!(r.rows[0][0], 0);
    assert_eq!(r.rows[0][1599], 99);
    assert_eq!(r.rows[16][0], 100);
    let long = GrayImage::from_pixels(800, 32, &vec![9; 800 * 32]).unwrap();
    let l = resize_to_field(&long);
    assert_eq!(l.width, 800);
    assert!(l.rows.iter().all(|row| row.len() == 800 && row.iter().all(|&p| p == 9)));
}

#[test]
fn resize_tall_field_keeps_one_column() {
    let img = GrayImage::from_pixels(1, 64, &(0..64).map(|i| i as u8).collect()).unwrap();
    let r = resize_to_field(&img);
    assert_eq!(r.width, 1);
    assert_eq!(r.rows[3][0], 6);
}

#[test]
fn resize_empty_has_no_columns() {
    let img = GrayImage::from_pixels(0, 0, &vec![]).unwrap();
    let r = resize_to_field(&img);
    assert_eq!(r.height(), FIELD_HEIGHT);
    assert_eq!(r.width, 0);
    assert!(r.rows.iter().all(|row| row.is_empty()));
}

#[test]
fn prepare_field_stretches_then_resizes() {
    let img = GrayImage::from_pixels(2, 1, &vec![10, 200]).unwrap();
    let r = prepare_field(&img);
    assert_eq!(r.width, 64);
    assert_eq!(r.rows[5][0], 0);
    assert_eq!(r.rows[5][40], 255);
}

#[test]
fn fingerprint_is_pixel_sum() {
    let img = GrayImage::from_pixels(3, 2, &vec![1, 2, 3, 4, 5, 6]).unwrap();
    assert_eq!(fingerprint(&img), 21);
    let other = GrayImage::from_pixels(3, 2, &vec![1, 2, 3, 4, 5, 7]).unwrap();
    assert_ne!(fingerprint(&img), fingerprint(&other));
    assert_eq!(fingerprint(&GrayImage::from_pixels(0, 0, &vec![]).unwrap()), 0);
}
