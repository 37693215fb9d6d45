use raytracer::camera::image_height;

#[test]
fn sixteen_by_nine_at_400_is_225() {
    assert_eq!(image_height(400, 16, 9), Some(225));
}

#[test]
fn sixteen_by_nine_at_2560_is_1440() {
    assert_eq!(image_height(2560, 16, 9), Some(1440));
}

#[test]
fn square_ratio_keeps_the_width() {
    assert_eq!(image_height(100, 1, 1), Some(100));
}

#[test]
fn height_is_clamped_to_at_least_one_row() {
    // One pixel of width at 16:9 would round down to zero rows.
    assert_eq!(image_height(1, 16, 9), Some(1));
}

#[test]
fn zero_width_is_rejected() {
    assert_eq!(image_height(0, 16, 9), None);
}

#[test]
fn truncation_rounds_down() {
    // 10 * 9 / 16 = 5.625, so the derived height is 5.
    assert_eq!(image_height(10, 16, 9), Some(5));
}

#[test]
fn zero_ratio_is_rejected() {
    assert_eq!(image_height(400, 0, 9), None);
}

#[test]
fn oversized_scaling_is_rejected() {
    assert_eq!(image_height(usize::MAX, 16, 9), None);
}
