//! The shared output buffer of the renderer.
//!
//! The render computes the whole image before anything is written out, in a
//! buffer of one 8-bit RGB triple per pixel, addressed row-major from the
//! top-left pixel. Parallel workers each own disjoint rows; the slot
//! arithmetic proved here is what makes their writes disjoint, so the
//! partitioning needs no locking to be safe.

use vstd::prelude::*;
use vstd::pervasive::VecAdditionalExecFns;

verus! {

/// One quantized pixel: an 8-bit value per color channel, exactly what one
/// line of the output file carries.
#[derive(Clone, Copy, Debug, PartialEq, Eq, Structural)]
pub struct Pixel {
    pub r: u8,
    pub g: u8,
    pub b: u8,
}

impl Pixel {
    /// The color every pixel starts out as, and the color of an exhausted or
    /// absorbed radiance walk.
    pub open spec fn black() -> Pixel {
        Pixel { r: 0, g: 0, b: 0 }
    }

    pub fn new(r: u8, g: u8, b: u8) -> (p: Pixel)
        ensures
            p == (Pixel { r, g, b }),
    {
        Pixel { r, g, b }
    }
}

/// Row-major slot of the pixel in column `x` of row `y`.
pub open spec fn slot(width: int, x: int, y: int) -> int {
    y * width + x
}

/// A `width` by `height` image held as one row-major vector of pixels.
pub struct ImageBuffer {
    pub width: usize,
    pub height: usize,
    pub pixels: Vec<Pixel>,
}

impl ImageBuffer {
    /// The buffer holds exactly one pixel per slot of the image.
    pub open spec fn well_formed(self) -> bool {
        self.pixels@.len() == self.width * self.height
    }

    pub open spec fn spec_width(self) -> int {
        self.width as int
    }

    pub open spec fn spec_height(self) -> int {
        self.height as int
    }

    /// The pixels in row-major order.
    pub open spec fn pixel_seq(self) -> Seq<Pixel> {
        self.pixels@
    }

    /// A fresh all-black image. Rejects dimensions whose pixel count does not
    /// fit in a machine word.
    pub fn new(width: usize, height: usize) -> (r: Option<ImageBuffer>)
        ensures
            match r {
                Some(img) => {
                    &&& width * height <= usize::MAX
                    &&& img.well_formed()
                    &&& img.spec_width() == width
                    &&& img.spec_height() == height
                    &&& img.pixel_seq() == Seq::new((width * height) as nat, |i: int| Pixel::black())
                },
                None => width * height > usize::MAX,
            },
    {
        match width.checked_mul(height) {
            None => None,
            Some(count) => {
                let mut pixels: Vec<Pixel> = Vec::new();
                let mut i: usize = 0;
                while i < count
                    invariant
                        i <= count,
                        pixels@.len() == i,
                        forall|k: int| 0 <= k < i ==> pixels@[k] == Pixel::black(),
                    decreases count - i,
                {
                    pixels.push(Pixel { r: 0, g: 0, b: 0 });
                    i = i + 1;
                }
                let img = ImageBuffer { width, height, pixels };
                proof {
                    assert(img.pixel_seq() =~= Seq::new(
                        (width * height) as nat,
                        |i: int| Pixel::black(),
                    ));
                }
                Some(img)
            },
        }
    }

    pub fn width(&self) -> (w: usize)
        ensures
            w == self.spec_width(),
    {
        self.width
    }

    pub fn height(&self) -> (h: usize)
        ensures
            h == self.spec_height(),
    {
        self.height
    }

    /// The backing row-major pixel vector.
    pub fn pixels(&self) -> (p: &Vec<Pixel>)
        ensures
            p@ == self.pixel_seq(),
    {
        &self.pixels
    }

    pub fn get(&self, x: usize, y: usize) -> (p: Pixel)
        requires
            self.well_formed(),
            x < self.spec_width(),
            y < self.spec_height(),
        ensures
            p == self.pixel_seq()[slot(self.spec_width(), x as int, y as int)],
    {
        proof {
            assert(self.pixels.len() == self.width * self.height);
            lemma_slot_in_range(self.width as int, self.height as int, x as int, y as int);
        }
        let idx: usize = y * self.width + x;
        self.pixels[idx]
    }

    /// Overwrite the pixel in column `x` of row `y`, leaving every other
    /// slot exactly as it was.
    pub fn set(&mut self, x: usize, y: usize, p: Pixel)
        requires
            old(self).well_formed(),
            x < old(self).spec_width(),
            y < old(self).spec_height(),
        ensures
            final(self).well_formed(),
            final(self).spec_width() == old(self).spec_width(),
            final(self).spec_height() == old(self).spec_height(),
            final(self).pixel_seq() == old(self).pixel_seq().update(
                slot(old(self).spec_width(), x as int, y as int),
                p,
            ),
    {
        proof {
            assert(self.pixels.len() == self.width * self.height);
            lemma_slot_in_range(self.width as int, self.height as int, x as int, y as int);
        }
        let idx: usize = y * self.width + x;
        self.pixels.set(idx, p);
    }
}

/// Every in-bounds pixel's slot lies inside the buffer.
pub proof fn lemma_slot_in_range(width: int, height: int, x: int, y: int)
    requires
        0 <= x < width,
        0 <= y < height,
    ensures
        0 <= slot(width, x, y) < width * height,
{
    assert(0 <= y * width + x < width * height) by (nonlinear_arith)
        requires
            0 <= x < width,
            0 <= y < height,
    ;
}

/// Distinct pixels occupy distinct slots: the row-major layout never aliases
/// two coordinates onto one vector entry.
pub proof fn lemma_slot_injective(width: int, x1: int, y1: int, x2: int, y2: int)
    requires
        0 <= x1 < width,
        0 <= x2 < width,
        0 <= y1,
        0 <= y2,
        !(x1 == x2 && y1 == y2),
    ensures
        slot(width, x1, y1) != slot(width, x2, y2),
{
    assert(y1 * width + x1 != y2 * width + x2) by (nonlinear_arith)
        requires
            0 <= x1 < width,
            0 <= x2 < width,
            0 <= y1,
            0 <= y2,
            !(x1 == x2 && y1 == y2),
    ;
}

/// A worker that writes one pixel disturbs no other pixel: after a write at
/// `(x1, y1)`, every other coordinate reads exactly what it read before.
/// This is the disjointness that lets workers fill disjoint rows of the one
/// shared buffer with no coordination between them.
pub proof fn lemma_disjoint_writes(
    before: ImageBuffer,
    after: ImageBuffer,
    x1: int,
    y1: int,
    p: Pixel,
    x2: int,
    y2: int,
)
    requires
        before.well_formed(),
        0 <= x1 < before.spec_width(),
        0 <= y1 < before.spec_height(),
        0 <= x2 < before.spec_width(),
        0 <= y2 < before.spec_height(),
        !(x1 == x2 && y1 == y2),
        after.pixel_seq() == before.pixel_seq().update(slot(before.spec_width(), x1, y1), p),
    ensures
        after.pixel_seq()[slot(before.spec_width(), x2, y2)] == before.pixel_seq()[slot(
            before.spec_width(),
            x2,
            y2,
        )],
{
    lemma_slot_in_range(before.spec_width(), before.spec_height(), x1, y1);
    lemma_slot_in_range(before.spec_width(), before.spec_height(), x2, y2);
    lemma_slot_injective(before.spec_width(), x1, y1, x2, y2);
}

} // verus!
