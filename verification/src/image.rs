//! The pixel buffer and its plain-text serialization.
//!
//! The buffer is a flat row-major array of colors at fixed dimensions.  The
//! serializer emits the text pixel format: a `P3` header line, the
//! dimensions, the maximum channel value 255, then one line per row of
//! space-separated integer triplets (each channel the truncated product of
//! the unit-range channel with 255), with a trailing space before each
//! newline.

use vstd::prelude::*;

use crate::fixed::{trunc_div, SCALE};
use crate::material::{clamp_s, Color};

verus! {

/// A `width` by `height` grid of colors, stored row-major.
pub struct Image {
    buffer: Vec<Color>,
    w: usize,
    h: usize,
}

impl Image {
    /// The buffer holds exactly one color per pixel.
    pub closed spec fn spec_valid(self) -> bool {
        self.buffer@.len() == self.w * self.h
    }

    /// Width in pixels.
    pub closed spec fn spec_width(self) -> int {
        self.w as int
    }

    /// Height in pixels.
    pub closed spec fn spec_height(self) -> int {
        self.h as int
    }

    /// The color stored for column `x` of row `y`.
    pub closed spec fn spec_pixel(self, x: int, y: int) -> Color {
        self.buffer@[y * self.w + x]
    }

    /// A buffer of the given dimensions with every pixel black.
    pub fn new(width: usize, height: usize) -> (img: Image)
        requires
            width * height <= usize::MAX,
        ensures
            img.spec_valid(),
            img.spec_width() == width,
            img.spec_height() == height,
            forall|x: int, y: int|
                0 <= x < width && 0 <= y < height ==> img.spec_pixel(x, y) == (Color {
                    r: 0,
                    g: 0,
                    b: 0,
                }),
    {
        let total: usize = width * height;
        let mut buffer: Vec<Color> = Vec::new();
        let mut k: usize = 0;
        while k < total
            invariant
                k <= total,
                buffer@.len() == k,
                forall|n: int| 0 <= n < k ==> buffer@[n] == (Color { r: 0, g: 0, b: 0 }),
            decreases total - k,
        {
            buffer.push(Color::new_black());
            k = k + 1;
        }
        let img = Image { buffer, w: width, h: height };
        proof {
            assert forall|x: int, y: int| 0 <= x < width && 0 <= y < height implies img.spec_pixel(
                x,
                y,
            ) == (Color { r: 0, g: 0, b: 0 }) by {
                assert(y * width + x < width * height) by (nonlinear_arith)
                    requires
                        0 <= x < width,
                        0 <= y < height,
                ;
                assert(0 <= y * width + x) by (nonlinear_arith)
                    requires
                        0 <= x,
                        0 <= y,
                        width > 0,
                ;
            }
        }
        img
    }

    /// Store `color` at column `x` of row `y`.
    pub fn set_color(&mut self, x: usize, y: usize, color: Color)
        requires
            old(self).spec_valid(),
            x < old(self).spec_width(),
            y < old(self).spec_height(),
        ensures
            final(self).spec_valid(),
            final(self).spec_width() == old(self).spec_width(),
            final(self).spec_height() == old(self).spec_height(),
            final(self).spec_pixel(x as int, y as int) == color,
            forall|i: int, j: int|
                0 <= i < old(self).spec_width() && 0 <= j < old(self).spec_height() && !(i == x
                    && j == y) ==> final(self).spec_pixel(i, j) == old(self).spec_pixel(i, j),
    {
        proof {
            vstd::std_specs::vec::axiom_spec_len(&self.buffer);
            lemma_row_major_index(self.w as int, self.h as int, x as int, y as int);
        }
        let idx: usize = y * self.w + x;
        self.buffer[idx] = color;
        proof {
            assert forall|i: int, j: int|
                0 <= i < self.w && 0 <= j < self.h && !(i == x && j == y) implies self.spec_pixel(
                i,
                j,
            ) == old(self).spec_pixel(i, j) by {
                lemma_row_major_index(self.w as int, self.h as int, i, j);
                lemma_row_major_distinct(self.w as int, x as int, y as int, i, j);
            }
        }
    }

    /// The color at column `x` of row `y`.
    pub fn get_color(&self, x: usize, y: usize) -> (color: Color)
        requires
            self.spec_valid(),
            x < self.spec_width(),
            y < self.spec_height(),
        ensures
            color == self.spec_pixel(x as int, y as int),
    {
        proof {
            vstd::std_specs::vec::axiom_spec_len(&self.buffer);
            lemma_row_major_index(self.w as int, self.h as int, x as int, y as int);
        }
        let idx: usize = y * self.w + x;
        self.buffer[idx]
    }

    /// Width in pixels.
    pub fn width(&self) -> (r: usize)
        ensures
            r == self.spec_width(),
    {
        self.w
    }

    /// Height in pixels.
    pub fn height(&self) -> (r: usize)
        ensures
            r == self.spec_height(),
    {
        self.h
    }
}

/// A row-major index stays inside the buffer.
proof fn lemma_row_major_index(w: int, h: int, x: int, y: int)
    requires
        0 <= x < w,
        0 <= y < h,
    ensures
        0 <= y * w + x < w * h,
{
    assert(y * w + x < w * h && 0 <= y * w + x) by (nonlinear_arith)
        requires
            0 <= x < w,
            0 <= y < h,
    ;
}

/// Distinct pixel coordinates give distinct row-major indices.
proof fn lemma_row_major_distinct(w: int, x: int, y: int, i: int, j: int)
    requires
        0 <= x < w,
        0 <= i < w,
        0 <= y,
        0 <= j,
        !(i == x && j == y),
    ensures
        j * w + i != y * w + x,
{
    if j == y {
    } else {
        assert(j * w + i != y * w + x) by (nonlinear_arith)
            requires
                0 <= x < w,
                0 <= i < w,
                0 <= y,
                0 <= j,
                j != y,
        ;
    }
}

/// Decimal digits of `n`, most significant first.
pub open spec fn spec_digits(n: nat) -> Seq<u8>
    decreases n,
{
    if n < 10 {
        seq![(48 + n) as u8]
    } else {
        spec_digits(n / 10).push((48 + n % 10) as u8)
    }
}

/// The byte a unit-range channel serializes to: the channel times 255,
/// truncated, held inside `[0, 255]` as a saturating cast would.
pub open spec fn spec_channel_byte(c: int) -> int {
    clamp_s(0, 255, trunc_div(c * 255, SCALE as int))
}

/// The bytes one pixel contributes: three decimal channel values, each
/// followed by a space.
pub open spec fn spec_pixel_bytes(c: Color) -> Seq<u8> {
    spec_digits(spec_channel_byte(c.r as int) as nat) + seq![32u8] + spec_digits(
        spec_channel_byte(c.g as int) as nat,
    ) + seq![32u8] + spec_digits(spec_channel_byte(c.b as int) as nat) + seq![32u8]
}

/// The bytes of the first `upto_x` pixels of row `y`, left to right.
pub open spec fn spec_row_bytes(img: Image, y: int, upto_x: int) -> Seq<u8>
    decreases upto_x,
{
    if upto_x <= 0 {
        Seq::empty()
    } else {
        spec_row_bytes(img, y, upto_x - 1) + spec_pixel_bytes(img.spec_pixel(upto_x - 1, y))
    }
}

/// The bytes of the first `upto_y` rows, each closed by a newline.
pub open spec fn spec_rows_bytes(img: Image, upto_y: int) -> Seq<u8>
    decreases upto_y,
{
    if upto_y <= 0 {
        Seq::empty()
    } else {
        spec_rows_bytes(img, upto_y - 1) + spec_row_bytes(img, upto_y - 1, img.spec_width())
            + seq![10u8]
    }
}

/// The three header lines: `P3`, the dimensions, and the maximum channel
/// value 255.
pub open spec fn spec_header(w: int, h: int) -> Seq<u8> {
    seq![80u8, 51u8, 10u8] + spec_digits(w as nat) + seq![32u8] + spec_digits(h as nat)
        + seq![10u8] + seq![50u8, 53u8, 53u8, 10u8]
}

/// The full serialized form of an image.
pub open spec fn spec_serialized(img: Image) -> Seq<u8> {
    spec_header(img.spec_width(), img.spec_height()) + spec_rows_bytes(img, img.spec_height())
}

/// Append the decimal digits of `n`.
fn push_digits(out: &mut Vec<u8>, n: usize)
    ensures
        final(out)@ == old(out)@ + spec_digits(n as nat),
    decreases n,
{
    if n < 10 {
        out.push(48 + n as u8);
        assert(out@ =~= old(out)@ + spec_digits(n as nat));
    } else {
        push_digits(out, n / 10);
        out.push(48 + (n % 10) as u8);
        assert(out@ =~= old(out)@ + spec_digits(n as nat));
    }
}

/// Append one serialized channel: its byte value in decimal, then a space.
fn push_channel(out: &mut Vec<u8>, c: i64)
    ensures
        final(out)@ == old(out)@ + spec_digits(spec_channel_byte(c as int) as nat) + seq![32u8],
{
    let v: usize = if c <= 0 {
        proof {
            crate::fixed::lemma_abs_mul(c as int, 255);
            crate::fixed::lemma_trunc_div_rem((c as int) * 255, SCALE as int);
        }
        0
    } else {
        let t: u128 = (c as u128) * 255 / (SCALE as u128);
        proof {
            crate::fixed::lemma_abs_mul(c as int, 255);
        }
        if t > 255 {
            255
        } else {
            t as usize
        }
    };
    assert(v as int == spec_channel_byte(c as int));
    push_digits(out, v);
    out.push(32u8);
}

/// Serialize an image to the text pixel format.
pub fn image_to_file(image: &Image) -> (out: Vec<u8>)
    requires
        image.spec_valid(),
    ensures
        out@ == spec_serialized(*image),
{
    let mut out: Vec<u8> = Vec::new();
    out.push(80u8);
    out.push(51u8);
    out.push(10u8);
    push_digits(&mut out, image.width());
    out.push(32u8);
    push_digits(&mut out, image.height());
    out.push(10u8);
    out.push(50u8);
    out.push(53u8);
    out.push(53u8);
    out.push(10u8);
    assert(out@ =~= spec_header(image.spec_width(), image.spec_height()));
    let w: usize = image.width();
    let h: usize = image.height();
    let mut y: usize = 0;
    while y < h
        invariant
            image.spec_valid(),
            w == image.spec_width(),
            h == image.spec_height(),
            y <= h,
            out@ == spec_header(w as int, h as int) + spec_rows_bytes(*image, y as int),
        decreases h - y,
    {
        let mut x: usize = 0;
        while x < w
            invariant
                image.spec_valid(),
                w == image.spec_width(),
                h == image.spec_height(),
                y < h,
                x <= w,
                out@ == spec_header(w as int, h as int) + spec_rows_bytes(*image, y as int)
                    + spec_row_bytes(*image, y as int, x as int),
            decreases w - x,
        {
            let color: Color = image.get_color(x, y);
            push_channel(&mut out, color.r);
            push_channel(&mut out, color.g);
            push_channel(&mut out, color.b);
            assert(out@ =~= spec_header(w as int, h as int) + spec_rows_bytes(*image, y as int)
                + spec_row_bytes(*image, y as int, x as int + 1));
            x = x + 1;
        }
        out.push(10u8);
        assert(out@ =~= spec_header(w as int, h as int) + spec_rows_bytes(
            *image,
            y as int + 1,
        ));
        y = y + 1;
    }
    out
}

} // verus!
