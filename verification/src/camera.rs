//! Derivation of the image dimensions from the camera configuration.
//!
//! The camera is configured with an output width and a target aspect ratio;
//! the height is derived, never configured. The library takes the ratio as
//! an exact pair of integers (for a 16:9 image, 16 and 9), so the derived
//! height is a plain integer fact rather than a rounding accident.

use vstd::prelude::*;

verus! {

/// Height derived from `width` and the aspect ratio `num : den`, clamped to
/// at least one pixel row.
pub open spec fn derived_height(width: int, num: int, den: int) -> int {
    let h = (width * den) / num;
    if h < 1 {
        1
    } else {
        h
    }
}

/// Derive the image height for a `width`-pixel-wide image with aspect ratio
/// `aspect_num : aspect_den`. A zero image width and a zero ratio numerator
/// are configuration errors, rejected here — before any rendering — rather
/// than producing a degenerate image; a width too large for the machine to
/// scale is rejected the same way.
pub fn image_height(width: usize, aspect_num: usize, aspect_den: usize) -> (r: Option<usize>)
    ensures
        match r {
            Some(h) => width > 0 && aspect_num > 0 && width * aspect_den <= usize::MAX && h
                == derived_height(width as int, aspect_num as int, aspect_den as int),
            None => width == 0 || aspect_num == 0 || width * aspect_den > usize::MAX,
        },
{
    if width == 0 || aspect_num == 0 {
        return None;
    }
    match width.checked_mul(aspect_den) {
        None => None,
        Some(scaled) => {
            let h = scaled / aspect_num;
            if h < 1 {
                Some(1)
            } else {
                Some(h)
            }
        },
    }
}

} // verus!
