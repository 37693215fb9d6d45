//! Plain-text image encoding.
//!
//! A finished render is written out as text: a three-line header — the
//! magic line `P3`, the width and the height separated by a space, and the
//! maximum channel value `255` — followed by one line per pixel holding the
//! three channel values, in row-major order from the top-left pixel.
//! Consecutive lines are separated by single newlines and the text carries
//! no trailing newline.

use vstd::prelude::*;
use crate::image::{ImageBuffer, Pixel};

verus! {

/// ASCII code of the decimal digit `d`.
pub open spec fn digit(d: int) -> u8
    recommends
        0 <= d < 10,
{
    (48 + d) as u8
}

/// ASCII decimal numeral of `n`, most significant digit first, with no
/// leading zeros (the numeral of zero is the single digit `0`).
pub open spec fn decimal(n: int) -> Seq<u8>
    recommends
        0 <= n,
    decreases n,
{
    if n < 10 {
        seq![digit(n)]
    } else {
        decimal(n / 10).push(digit(n % 10))
    }
}

/// The line one pixel becomes: its three channel values separated by single
/// spaces.
pub open spec fn pixel_line(p: Pixel) -> Seq<u8> {
    decimal(p.r as int) + seq![32u8] + decimal(p.g as int) + seq![32u8] + decimal(p.b as int)
}

/// All pixel lines in order, joined by single newlines, with no trailing
/// newline.
pub open spec fn pixel_lines(ps: Seq<Pixel>) -> Seq<u8>
    decreases ps.len(),
{
    if ps.len() == 0 {
        Seq::empty()
    } else if ps.len() == 1 {
        pixel_line(ps[0])
    } else {
        pixel_lines(ps.drop_last()) + seq![10u8] + pixel_line(ps.last())
    }
}

/// The three header lines: `P3`, the image dimensions, and the maximum
/// channel value `255`, each terminated by a newline.
pub open spec fn header(width: int, height: int) -> Seq<u8> {
    seq![80u8, 51u8, 10u8] + decimal(width) + seq![32u8] + decimal(height) + seq![10u8] + seq![
        50u8,
        53u8,
        53u8,
        10u8,
    ]
}

/// The whole image text: the header followed by one line per pixel.
pub open spec fn ppm_text(width: int, height: int, ps: Seq<Pixel>) -> Seq<u8> {
    header(width, height) + pixel_lines(ps)
}

/// Append the decimal numeral of `n`.
fn push_decimal(out: &mut Vec<u8>, n: usize)
    ensures
        final(out)@ == old(out)@ + decimal(n as int),
    decreases n,
{
    if n < 10 {
        out.push(48 + (n as u8));
        proof {
            assert(final(out)@ =~= old(out)@ + decimal(n as int));
        }
    } else {
        push_decimal(out, n / 10);
        out.push(48 + ((n % 10) as u8));
        proof {
            assert(final(out)@ =~= old(out)@ + decimal(n as int));
        }
    }
}

/// Append the line for one pixel.
fn push_pixel_line(out: &mut Vec<u8>, p: Pixel)
    ensures
        final(out)@ == old(out)@ + pixel_line(p),
{
    push_decimal(out, p.r as usize);
    out.push(32);
    push_decimal(out, p.g as usize);
    out.push(32);
    push_decimal(out, p.b as usize);
    proof {
        assert(final(out)@ =~= old(out)@ + pixel_line(p));
    }
}

/// Encode a finished image as the complete output text. The whole buffer is
/// encoded in one pass, so a caller that writes the result writes either the
/// complete image or nothing — never a partial image.
pub fn ppm_bytes(img: &ImageBuffer) -> (out: Vec<u8>)
    requires
        img.well_formed(),
    ensures
        out@ == ppm_text(img.spec_width(), img.spec_height(), img.pixel_seq()),
{
    let ghost ps = img.pixel_seq();
    let mut out: Vec<u8> = Vec::new();
    out.push(80);
    out.push(51);
    out.push(10);
    push_decimal(&mut out, img.width());
    out.push(32);
    push_decimal(&mut out, img.height());
    out.push(10);
    out.push(50);
    out.push(53);
    out.push(53);
    out.push(10);
    proof {
        assert(out@ =~= header(img.spec_width(), img.spec_height()));
    }
    let pixels = img.pixels();
    let n = pixels.len();
    let mut i: usize = 0;
    while i < n
        invariant
            i <= n,
            n == ps.len(),
            pixels@ == ps,
            out@ == header(img.spec_width(), img.spec_height()) + pixel_lines(ps.take(i as int)),
        decreases n - i,
    {
        if i > 0 {
            out.push(10);
        }
        push_pixel_line(&mut out, pixels[i]);
        proof {
            assert(ps.take(i + 1 as int).drop_last() =~= ps.take(i as int));
            assert(ps.take(i + 1 as int).last() == ps[i as int]);
            if i == 0 {
                assert(pixel_lines(ps.take(1int)) == pixel_line(ps[0]));
            }
            assert(out@ =~= header(img.spec_width(), img.spec_height()) + pixel_lines(
                ps.take(i + 1 as int),
            ));
        }
        i = i + 1;
    }
    proof {
        assert(ps.take(n as int) =~= ps);
    }
    out
}

/// Newlines in a byte sequence.
pub open spec fn newline_count(s: Seq<u8>) -> nat
    decreases s.len(),
{
    if s.len() == 0 {
        0
    } else {
        newline_count(s.drop_last()) + if s.last() == 10u8 {
            1nat
        } else {
            0nat
        }
    }
}

proof fn lemma_newline_count_concat(a: Seq<u8>, b: Seq<u8>)
    ensures
        newline_count(a + b) == newline_count(a) + newline_count(b),
    decreases b.len(),
{
    if b.len() == 0 {
        assert(a + b =~= a);
    } else {
        assert((a + b).drop_last() =~= a + b.drop_last());
        assert((a + b).last() == b.last());
        lemma_newline_count_concat(a, b.drop_last());
    }
}

proof fn lemma_newline_count_single(x: u8)
    ensures
        newline_count(seq![x]) == if x == 10u8 {
            1nat
        } else {
            0nat
        },
{
    let s = seq![x];
    assert(newline_count(Seq::<u8>::empty()) == 0);
    assert(s.drop_last() =~= Seq::<u8>::empty());
    assert(s.last() == x);
}

proof fn lemma_decimal_no_newline(n: int)
    requires
        0 <= n,
    ensures
        newline_count(decimal(n)) == 0,
    decreases n,
{
    if n < 10 {
        lemma_newline_count_single(digit(n));
    } else {
        lemma_decimal_no_newline(n / 10);
        assert(decimal(n) =~= decimal(n / 10) + seq![digit(n % 10)]);
        lemma_newline_count_concat(decimal(n / 10), seq![digit(n % 10)]);
        lemma_newline_count_single(digit(n % 10));
    }
}

proof fn lemma_pixel_line_no_newline(p: Pixel)
    ensures
        newline_count(pixel_line(p)) == 0,
{
    lemma_decimal_no_newline(p.r as int);
    lemma_decimal_no_newline(p.g as int);
    lemma_decimal_no_newline(p.b as int);
    lemma_newline_count_single(32u8);
    lemma_newline_count_concat(decimal(p.r as int), seq![32u8]);
    lemma_newline_count_concat(decimal(p.r as int) + seq![32u8], decimal(p.g as int));
    lemma_newline_count_concat(
        decimal(p.r as int) + seq![32u8] + decimal(p.g as int),
        seq![32u8],
    );
    lemma_newline_count_concat(
        decimal(p.r as int) + seq![32u8] + decimal(p.g as int) + seq![32u8],
        decimal(p.b as int),
    );
}

proof fn lemma_pixel_lines_newlines(ps: Seq<Pixel>)
    requires
        ps.len() >= 1,
    ensures
        newline_count(pixel_lines(ps)) == ps.len() - 1,
    decreases ps.len(),
{
    if ps.len() == 1 {
        lemma_pixel_line_no_newline(ps[0]);
    } else {
        lemma_pixel_lines_newlines(ps.drop_last());
        lemma_newline_count_single(10u8);
        lemma_pixel_line_no_newline(ps.last());
        lemma_newline_count_concat(pixel_lines(ps.drop_last()), seq![10u8]);
        lemma_newline_count_concat(pixel_lines(ps.drop_last()) + seq![10u8], pixel_line(ps.last()));
    }
}

proof fn lemma_header_newlines(width: int, height: int)
    requires
        0 <= width,
        0 <= height,
    ensures
        newline_count(header(width, height)) == 3,
{
    let magic = seq![80u8, 51u8, 10u8];
    let tail = seq![50u8, 53u8, 53u8, 10u8];
    assert(newline_count(magic) == 1) by {
        assert(magic =~= seq![80u8] + seq![51u8] + seq![10u8]);
        lemma_newline_count_concat(seq![80u8] + seq![51u8], seq![10u8]);
        lemma_newline_count_concat(seq![80u8], seq![51u8]);
        lemma_newline_count_single(80u8);
        lemma_newline_count_single(51u8);
        lemma_newline_count_single(10u8);
    }
    assert(newline_count(tail) == 1) by {
        assert(tail =~= seq![50u8] + seq![53u8] + seq![53u8] + seq![10u8]);
        lemma_newline_count_concat(seq![50u8] + seq![53u8] + seq![53u8], seq![10u8]);
        lemma_newline_count_concat(seq![50u8] + seq![53u8], seq![53u8]);
        lemma_newline_count_concat(seq![50u8], seq![53u8]);
        lemma_newline_count_single(50u8);
        lemma_newline_count_single(53u8);
        lemma_newline_count_single(10u8);
    }
    lemma_decimal_no_newline(width);
    lemma_decimal_no_newline(height);
    lemma_newline_count_single(32u8);
    lemma_newline_count_single(10u8);
    lemma_newline_count_concat(magic, decimal(width));
    lemma_newline_count_concat(magic + decimal(width), seq![32u8]);
    lemma_newline_count_concat(magic + decimal(width) + seq![32u8], decimal(height));
    lemma_newline_count_concat(
        magic + decimal(width) + seq![32u8] + decimal(height),
        seq![10u8],
    );
    lemma_newline_count_concat(
        magic + decimal(width) + seq![32u8] + decimal(height) + seq![10u8],
        tail,
    );
}

/// Shape of the finished text: it opens with exactly the three header lines,
/// and when the image has any pixels its newlines number the pixel count
/// plus two — so, split on newlines, the text has three header lines
/// followed by exactly one line per pixel. An image with no pixels is the
/// bare header.
pub proof fn lemma_ppm_line_structure(width: int, height: int, ps: Seq<Pixel>)
    requires
        0 <= width,
        0 <= height,
    ensures
        ppm_text(width, height, ps).take(header(width, height).len() as int) == header(
            width,
            height,
        ),
        newline_count(ppm_text(width, height, ps)) == if ps.len() == 0 {
            3int
        } else {
            ps.len() + 2int
        },
{
    assert(ppm_text(width, height, ps).take(header(width, height).len() as int) =~= header(
        width,
        height,
    ));
    lemma_header_newlines(width, height);
    if ps.len() == 0 {
        assert(ppm_text(width, height, ps) =~= header(width, height));
    } else {
        lemma_pixel_lines_newlines(ps);
        lemma_newline_count_concat(header(width, height), pixel_lines(ps));
    }
}

} // verus!
