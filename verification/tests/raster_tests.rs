use idmybee::errors::GeometryError;
use idmybee::raster::{crop, resize_if_larger, Image};

fn gradient_image(width: u32, height: u32) -> Image {
    let mut data = Vec::new();
    for y in 0..height {
        for x in 0..width {
            for c in 0..4u32 {
                data.push((y * 31 + x * 7 + c) as u8);
            }
        }
    }
    Image::new(width, height, data).unwrap()
}

#[test]
fn image_new_rejects_wrong_buffer_length() {
    assert!(Image::new(2, 2, vec![0u8; 15]).is_none());
    assert!(Image::new(2, 2, vec![0u8; 16]).is_some());
}

#[test]
fn crop_copies_the_top_left_rectangle_exactly() {
    let img = gradient_image(3, 2);
    let out = crop(&img, 2, 1).unwrap();
    assert_eq!(out.width(), 2);
    assert_eq!(out.height(), 1);
    let expected: Vec<u8> = vec![
        0, 1, 2, 3, // pixel (0,0)
        7, 8, 9, 10, // pixel (1,0)
    ];
    assert_eq!(out.bytes().as_slice(), expected.as_slice());
}

#[test]
fn crop_of_full_size_is_identity() {
    let img = gradient_image(3, 2);
    let out = crop(&img, 3, 2).unwrap();
    assert_eq!(out.bytes().as_slice(), img.bytes().as_slice());
}

#[test]
fn crop_larger_than_source_fails_with_size_mismatch() {
    let img = gradient_image(3, 2);
    assert_eq!(crop(&img, 4, 2).unwrap_err(), GeometryError::WarpSizeMismatch);
    assert_eq!(crop(&img, 3, 3).unwrap_err(), GeometryError::WarpSizeMismatch);
}

#[test]
fn resize_is_a_no_op_when_already_large_enough() {
    let img = gradient_image(4, 4);
    let original = img.bytes().clone();
    let out = resize_if_larger(img, 4, 3);
    assert_eq!(out.width(), 4);
    assert_eq!(out.height(), 4);
    assert_eq!(out.bytes().as_slice(), original.as_slice());
}

#[test]
fn resize_upsamples_each_axis_independently() {
    // Width already suffices; only the height grows, exactly to the target.
    let img = gradient_image(5, 2);
    let out = resize_if_larger(img, 4, 6);
    assert_eq!(out.width(), 5);
    assert_eq!(out.height(), 6);
    assert_eq!(out.bytes().len(), 5 * 6 * 4);
}

#[test]
fn resize_upsamples_both_axes_to_the_target() {
    let img = gradient_image(2, 2);
    let out = resize_if_larger(img, 8, 5);
    assert_eq!(out.width(), 8);
    assert_eq!(out.height(), 5);
    assert_eq!(out.bytes().len(), 8 * 5 * 4);
}

#[test]
fn resize_of_constant_image_keeps_its_color() {
    // The Lanczos resample of a constant image stays constant: a wrapper
    // that handed its input back unchanged would fail the length checks
    // above, and one that fabricated pixels would fail this one.
    let data = vec![200u8; 2 * 2 * 4];
    let img = Image::new(2, 2, data).unwrap();
    let out = resize_if_larger(img, 4, 4);
    assert_eq!(out.bytes().len(), 64);
    assert!(out.bytes().iter().all(|&b| b == 200));
}
