use raytracer::image::{ImageBuffer, Pixel};
use raytracer::ppm::ppm_bytes;

#[test]
fn single_pixel_image_text() {
    let mut img = ImageBuffer::new(1, 1).unwrap();
    img.set(0, 0, Pixel::new(255, 128, 0));
    let out = ppm_bytes(&img);
    assert_eq!(out, b"P3\n1 1\n255\n255 128 0".to_vec());
}

#[test]
fn two_by_two_image_text_is_row_major() {
    let mut img = ImageBuffer::new(2, 2).unwrap();
    img.set(0, 0, Pixel::new(1, 2, 3));
    img.set(1, 0, Pixel::new(4, 5, 6));
    img.set(0, 1, Pixel::new(7, 8, 9));
    img.set(1, 1, Pixel::new(10, 11, 12));
    let out = ppm_bytes(&img);
    assert_eq!(
        out,
        b"P3\n2 2\n255\n1 2 3\n4 5 6\n7 8 9\n10 11 12".to_vec()
    );
}

#[test]
fn empty_image_is_header_only() {
    let img = ImageBuffer::new(0, 0).unwrap();
    let out = ppm_bytes(&img);
    assert_eq!(out, b"P3\n0 0\n255\n".to_vec());
}

#[test]
fn channel_values_keep_full_decimal_range() {
    let mut img = ImageBuffer::new(1, 1).unwrap();
    img.set(0, 0, Pixel::new(0, 9, 100));
    let out = ppm_bytes(&img);
    assert_eq!(out, b"P3\n1 1\n255\n0 9 100".to_vec());
}

#[test]
fn full_render_size_has_expected_header_and_line_count() {
    // A 16:9 image 400 pixels wide is 225 pixels tall; its text must open
    // with the three header lines and then carry one line per pixel.
    let img = ImageBuffer::new(400, 225).unwrap();
    let out = ppm_bytes(&img);
    assert!(out.starts_with(b"P3\n400 225\n255\n"));
    let newlines = out.iter().filter(|&&b| b == b'\n').count();
    assert_eq!(newlines, 400 * 225 + 2);
    let text = String::from_utf8(out).unwrap();
    let lines: Vec<&str> = text.split('\n').collect();
    assert_eq!(lines.len(), 3 + 400 * 225);
    assert_eq!(lines[0], "P3");
    assert_eq!(lines[1], "400 225");
    assert_eq!(lines[2], "255");
    assert_eq!(lines[3], "0 0 0");
}
