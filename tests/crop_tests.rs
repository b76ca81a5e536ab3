use table_ocr::crop::{clip, crop_buffer, pixel_bounds, PixelBuffer};

fn image(width: usize, height: usize) -> PixelBuffer {
    let mut pixels = Vec::new();
    for j in 0..height {
        for i in 0..width {
            pixels.extend_from_slice(&[i as u8, j as u8, (i + j) as u8, 255]);
        }
    }
    PixelBuffer { width, height, pixels }
}

#[test]
fn quarter_to_three_quarters_full_height() {
    assert_eq!(pixel_bounds(400, 200, 250000, 750000, 0, 1000000), (100, 300, 0, 200));
    assert_eq!(pixel_bounds(400, 200, 750000, 250000, 1000000, 0), (100, 300, 0, 200));
    let img = image(400, 200);
    let c = crop_buffer(&img, 250000, 750000, 0, 1000000);
    assert_eq!((c.width, c.height), (200, 200));
    assert_eq!(c.pixels.len(), 200 * 200 * 4);
    assert_eq!(&c.pixels[0..4], &[100, 0, 100, 255]);
}

#[test]
fn equal_x_gives_zero_width() {
    let img = image(40, 20);
    let c = crop_buffer(&img, 500000, 500000, 100000, 900000);
    assert_eq!(c.width, 0);
    assert!(c.pixels.is_empty());
    let d = crop_buffer(&img, 0, 1000000, 300000, 300000);
    assert_eq!(d.height, 0);
    assert!(d.pixels.is_empty());
}

#[test]
fn y_axis_is_flipped() {
    // The lower half in positions is the lower half of the rows.
    assert_eq!(pixel_bounds(10, 10, 0, 1000000, 0, 500000), (0, 10, 5, 10));
    let img = image(4, 4);
    let c = crop_buffer(&img, 0, 250000, 750000, 1000000);
    assert_eq!((c.width, c.height), (1, 1));
    assert_eq!(c.pixels, vec![0, 0, 0, 255]);
    let d = crop_buffer(&img, 250000, 750000, 0, 500000);
    assert_eq!((d.width, d.height), (2, 2));
    assert_eq!(d.pixels, vec![1, 2, 3, 255, 2, 2, 4, 255, 1, 3, 4, 255, 2, 3, 5, 255]);
}

#[test]
fn out_of_range_positions_are_clamped() {
    assert_eq!(clip(-3), 0);
    assert_eq!(clip(2000000), 1000000);
    assert_eq!(clip(400000), 400000);
    assert_eq!(pixel_bounds(400, 200, -10, 5000000, -1, 2000000), (0, 400, 0, 200));
    let img = image(3, 3);
    let c = crop_buffer(&img, i64::MIN, i64::MAX, i64::MIN, i64::MAX);
    assert_eq!(c.pixels, img.pixels);
}
