use raytracer::image::{ImageBuffer, Pixel};

#[test]
fn new_buffer_has_requested_dimensions() {
    let img = ImageBuffer::new(4, 3).unwrap();
    assert_eq!(img.width(), 4);
    assert_eq!(img.height(), 3);
    assert_eq!(img.pixels().len(), 12);
}

#[test]
fn new_buffer_is_black() {
    let img = ImageBuffer::new(2, 2).unwrap();
    for y in 0..2 {
        for x in 0..2 {
            assert_eq!(img.get(x, y), Pixel::new(0, 0, 0));
        }
    }
}

#[test]
fn new_rejects_oversized_dimensions() {
    assert!(ImageBuffer::new(usize::MAX, 2).is_none());
}

#[test]
fn zero_sized_buffer_is_allowed() {
    let img = ImageBuffer::new(0, 7).unwrap();
    assert_eq!(img.pixels().len(), 0);
}

#[test]
fn set_then_get_round_trips() {
    let mut img = ImageBuffer::new(3, 2).unwrap();
    img.set(2, 1, Pixel::new(10, 20, 30));
    assert_eq!(img.get(2, 1), Pixel::new(10, 20, 30));
}

#[test]
fn set_leaves_every_other_pixel_unchanged() {
    let mut img = ImageBuffer::new(3, 3).unwrap();
    img.set(0, 0, Pixel::new(1, 1, 1));
    img.set(1, 2, Pixel::new(9, 8, 7));
    for y in 0..3 {
        for x in 0..3 {
            let expected = if (x, y) == (0, 0) {
                Pixel::new(1, 1, 1)
            } else if (x, y) == (1, 2) {
                Pixel::new(9, 8, 7)
            } else {
                Pixel::new(0, 0, 0)
            };
            assert_eq!(img.get(x, y), expected);
        }
    }
}

#[test]
fn rows_occupy_disjoint_slots() {
    let mut img = ImageBuffer::new(4, 2).unwrap();
    for x in 0..4 {
        img.set(x, 0, Pixel::new(100, 0, 0));
    }
    for x in 0..4 {
        img.set(x, 1, Pixel::new(0, 100, 0));
    }
    for x in 0..4 {
        assert_eq!(img.get(x, 0), Pixel::new(100, 0, 0));
        assert_eq!(img.get(x, 1), Pixel::new(0, 100, 0));
    }
}
