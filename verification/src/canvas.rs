//! The drawing surface: an RGBA8 image in row-major order with its origin at
//! the top left, kept in an `image::ImageBuffer`.

use vstd::prelude::*;
use crate::blend::{blend_over, blended};
use crate::color::{Rgb, Rgba};

verus! {

/// Offset of the first byte of pixel `(x, y)` in an image `width` pixels wide.
pub open spec fn pixel_offset(width: int, x: int, y: int) -> int {
    (y * width + x) * 4
}

/// Whether `(x, y)` lies on an image of the given dimensions.
pub open spec fn within(width: int, height: int, x: int, y: int) -> bool {
    0 <= x < width && 0 <= y < height
}

/// The pixel at `(x, y)`.
pub open spec fn pixel_at(data: Seq<u8>, width: int, x: int, y: int) -> Rgba {
    let o = pixel_offset(width, x, y);
    (data[o], data[o + 1], data[o + 2], data[o + 3])
}

/// The image with the pixel at `(x, y)` replaced by `px`.
pub open spec fn with_pixel(data: Seq<u8>, width: int, x: int, y: int, px: Rgba) -> Seq<u8> {
    let o = pixel_offset(width, x, y);
    data.update(o, px.0).update(o + 1, px.1).update(o + 2, px.2).update(o + 3, px.3)
}

/// The image after one coverage sample of colour `rgb` has been drawn at
/// `(x, y)`. A sample without coverage, or off the image, changes nothing.
/// With `blend` the sample is composited over the pixel; without, it
/// replaces the pixel.
pub open spec fn plotted(
    data: Seq<u8>,
    width: int,
    height: int,
    x: int,
    y: int,
    rgb: Rgb,
    alpha: u8,
    blend: bool,
) -> Seq<u8> {
    if alpha == 0 || !within(width, height, x, y) {
        data
    } else if blend {
        with_pixel(data, width, x, y, blended(pixel_at(data, width, x, y), rgb, alpha))
    } else {
        with_pixel(data, width, x, y, (rgb.0, rgb.1, rgb.2, alpha))
    }
}

/// One byte of a pixel, by channel index.
pub open spec fn channel(px: Rgba, i: int) -> u8 {
    if i == 0 {
        px.0
    } else if i == 1 {
        px.1
    } else if i == 2 {
        px.2
    } else {
        px.3
    }
}

/// An image of the given dimensions in which every pixel is `px`.
pub open spec fn solid(width: int, height: int, px: Rgba) -> Seq<u8> {
    Seq::new((4 * width * height) as nat, |i: int| channel(px, i % 4))
}

/// Whether a buffer of `len` bytes can hold an RGBA8 image of the given
/// dimensions: the bytes of one row can be counted in a `usize`, and the
/// buffer holds at least four bytes for each pixel.
pub open spec fn image_fits(width: u32, height: u32, len: nat) -> bool {
    4 * width <= usize::MAX && 4 * width * height <= len
}

/// An RGBA8 image of fixed dimensions.
#[verifier::external_body]
pub struct Canvas {
    inner: image::ImageBuffer<image::Rgba<u8>, Vec<u8>>,
}

/// The bytes of a canvas, four per pixel, rows from top to bottom.
pub uninterp spec fn canvas_bytes(canvas: Canvas) -> Seq<u8>;

/// Width and height of a canvas, in pixels.
pub uninterp spec fn canvas_size(canvas: Canvas) -> (u32, u32);

/// `image::ImageBuffer::from_raw`: adopts `buf` as the pixels of an image of
/// the given dimensions. The image crate computes the bytes of a row and
/// then those of the image, each in a `usize`, and accepts the buffer
/// exactly when neither product overflows and the buffer holds at least
/// four bytes per pixel; it keeps the buffer as it is.
#[verifier::external_body]
fn canvas_from_raw(width: u32, height: u32, buf: Vec<u8>) -> (r: Option<Canvas>)
    ensures
        r is Some <==> image_fits(width, height, buf@.len()),
        r matches Some(c) ==> canvas_bytes(c) == buf@ && canvas_size(c) == (width, height),
{
    match image::ImageBuffer::from_raw(width, height, buf) {
        Some(inner) => Some(Canvas { inner }),
        None => None,
    }
}

/// `image::ImageBuffer::into_raw`: gives the pixel buffer back.
#[verifier::external_body]
fn canvas_into_raw(canvas: Canvas) -> (r: Vec<u8>)
    ensures
        r@ == canvas_bytes(canvas),
{
    canvas.inner.into_raw()
}

/// `image::ImageBuffer::dimensions`: width and height.
#[verifier::external_body]
fn canvas_dimensions(canvas: &Canvas) -> (r: (u32, u32))
    ensures
        r == canvas_size(*canvas),
{
    canvas.inner.dimensions()
}

/// `image::ImageBuffer::get_pixel`: reads the four bytes of the pixel at
/// `(x, y)`, which the image crate finds at offset `(y * width + x) * 4`. It
/// panics outside the image, hence the precondition.
#[verifier::external_body]
fn canvas_get_pixel(canvas: &Canvas, x: u32, y: u32) -> (px: Rgba)
    requires
        x < canvas_size(*canvas).0,
        y < canvas_size(*canvas).1,
    ensures
        px == pixel_at(canvas_bytes(*canvas), canvas_size(*canvas).0 as int, x as int, y as int),
{
    let p = canvas.inner.get_pixel(x, y);
    (p.0[0], p.0[1], p.0[2], p.0[3])
}

/// `image::ImageBuffer::put_pixel`: overwrites the four bytes of the pixel at
/// `(x, y)` and nothing else. It panics outside the image, hence the
/// precondition.
#[verifier::external_body]
fn canvas_put_pixel(canvas: &mut Canvas, x: u32, y: u32, px: Rgba)
    requires
        x < canvas_size(*old(canvas)).0,
        y < canvas_size(*old(canvas)).1,
    ensures
        canvas_size(*final(canvas)) == canvas_size(*old(canvas)),
        canvas_bytes(*final(canvas)) == with_pixel(
            canvas_bytes(*old(canvas)),
            canvas_size(*old(canvas)).0 as int,
            x as int,
            y as int,
            px,
        ),
{
    canvas.inner.put_pixel(x, y, image::Rgba([px.0, px.1, px.2, px.3]));
}

/// The offsets of the pixels of an image lie inside its buffer, and two
/// different pixels do not share a byte.
pub proof fn lemma_pixel_offset_bounds(width: int, height: int, x: int, y: int)
    requires
        within(width, height, x, y),
    ensures
        0 <= pixel_offset(width, x, y),
        pixel_offset(width, x, y) + 4 <= 4 * width * height,
        pixel_offset(width, x, y) == 4 * (y * width + x),
        0 <= y * width + x < width * height,
{
    assert(0 <= y * width) by (nonlinear_arith)
        requires
            0 <= y,
            0 <= width,
    ;
    assert(y * width + width <= height * width) by (nonlinear_arith)
        requires
            0 <= y < height,
            0 <= width,
    ;
    assert(height * width == width * height) by (nonlinear_arith);
    assert(4 * width * height == 4 * (width * height)) by (nonlinear_arith);
}

/// Two different pixels of an image lie at different offsets.
pub proof fn lemma_pixel_offsets_distinct(width: int, x: int, y: int, ox: int, oy: int)
    requires
        0 <= x < width,
        0 <= ox < width,
        0 <= y,
        0 <= oy,
        x != ox || y != oy,
    ensures
        y * width + x != oy * width + ox,
{
    if y < oy {
        assert(oy * width >= (y + 1) * width) by (nonlinear_arith)
            requires
                y + 1 <= oy,
                0 <= width,
        ;
        assert((y + 1) * width == y * width + width) by (nonlinear_arith);
    } else if oy < y {
        assert(y * width >= (oy + 1) * width) by (nonlinear_arith)
            requires
                oy + 1 <= y,
                0 <= width,
        ;
        assert((oy + 1) * width == oy * width + width) by (nonlinear_arith);
    }
}

/// Replacing a pixel keeps the size of the image, sets that pixel and
/// leaves every other pixel as it was.
pub proof fn lemma_with_pixel(data: Seq<u8>, width: int, height: int, x: int, y: int, px: Rgba)
    requires
        data.len() == 4 * width * height,
        within(width, height, x, y),
    ensures
        with_pixel(data, width, x, y, px).len() == data.len(),
        pixel_at(with_pixel(data, width, x, y, px), width, x, y) == px,
        forall|ox: int, oy: int|
            within(width, height, ox, oy) && (ox != x || oy != y) ==> #[trigger] pixel_at(
                with_pixel(data, width, x, y, px),
                width,
                ox,
                oy,
            ) == pixel_at(data, width, ox, oy),
{
    lemma_pixel_offset_bounds(width, height, x, y);
    assert forall|ox: int, oy: int|
        within(width, height, ox, oy) && (ox != x || oy != y) implies #[trigger] pixel_at(
        with_pixel(data, width, x, y, px),
        width,
        ox,
        oy,
    ) == pixel_at(data, width, ox, oy) by {
        lemma_pixel_offset_bounds(width, height, ox, oy);
        lemma_pixel_offsets_distinct(width, x, y, ox, oy);
    }
}

/// Drawing a sample keeps the size of the image and leaves every pixel
/// but the one at `(x, y)` as it was.
pub proof fn lemma_plotted_frame(
    data: Seq<u8>,
    width: int,
    height: int,
    x: int,
    y: int,
    rgb: Rgb,
    alpha: u8,
    blend: bool,
)
    requires
        data.len() == 4 * width * height,
    ensures
        plotted(data, width, height, x, y, rgb, alpha, blend).len() == data.len(),
        forall|ox: int, oy: int|
            within(width, height, ox, oy) && (ox != x || oy != y) ==> #[trigger] pixel_at(
                plotted(data, width, height, x, y, rgb, alpha, blend),
                width,
                ox,
                oy,
            ) == pixel_at(data, width, ox, oy),
{
    if alpha != 0 && within(width, height, x, y) {
        if blend {
            lemma_with_pixel(data, width, height, x, y, blended(pixel_at(data, width, x, y), rgb, alpha));
        } else {
            lemma_with_pixel(data, width, height, x, y, (rgb.0, rgb.1, rgb.2, alpha));
        }
    }
}

/// Whether every pixel of an image is one that `allowed` admits.
pub open spec fn all_pixels(data: Seq<u8>, width: int, height: int, allowed: spec_fn(Rgba) -> bool) -> bool {
    forall|x: int, y: int| within(width, height, x, y) ==> allowed(#[trigger] pixel_at(data, width, x, y))
}

/// A sample that replaces a pixel leaves an image of admitted pixels one,
/// if the sample itself is admitted.
pub proof fn lemma_plotted_pixels(
    data: Seq<u8>,
    width: int,
    height: int,
    x: int,
    y: int,
    rgb: Rgb,
    alpha: u8,
    allowed: spec_fn(Rgba) -> bool,
)
    requires
        data.len() == 4 * width * height,
        all_pixels(data, width, height, allowed),
        allowed((rgb.0, rgb.1, rgb.2, alpha)),
    ensures
        plotted(data, width, height, x, y, rgb, alpha, false).len() == data.len(),
        all_pixels(plotted(data, width, height, x, y, rgb, alpha, false), width, height, allowed),
{
    lemma_plotted_frame(data, width, height, x, y, rgb, alpha, false);
    if alpha != 0 && within(width, height, x, y) {
        lemma_with_pixel(data, width, height, x, y, (rgb.0, rgb.1, rgb.2, alpha));
    }
    let after = plotted(data, width, height, x, y, rgb, alpha, false);
    assert forall|ox: int, oy: int| within(width, height, ox, oy) implies allowed(
        #[trigger] pixel_at(after, width, ox, oy),
    ) by {
        if ox != x || oy != y {
            assert(pixel_at(after, width, ox, oy) == pixel_at(data, width, ox, oy));
        }
    }
}

impl Canvas {
    /// Width in pixels.
    pub open spec fn width(self) -> int {
        canvas_size(self).0 as int
    }

    /// Height in pixels.
    pub open spec fn height(self) -> int {
        canvas_size(self).1 as int
    }

    /// The bytes of the image.
    pub open spec fn bytes(self) -> Seq<u8> {
        canvas_bytes(self)
    }

    /// A canvas holds exactly four bytes for each of its pixels.
    pub open spec fn wf(self) -> bool {
        self.bytes().len() == 4 * self.width() * self.height()
    }

    /// Makes a canvas of the given dimensions out of `buf`, which must hold
    /// exactly four bytes per pixel. The bytes of one row must fit in a
    /// `usize`, also where the canvas has no rows.
    pub fn from_raw(width: u32, height: u32, buf: Vec<u8>) -> (r: Option<Canvas>)
        ensures
            r is Some <==> 4 * width <= usize::MAX && buf@.len() == 4 * width * height,
            r matches Some(c) ==> c.wf() && c.bytes() == buf@ && c.width() == width && c.height()
                == height,
    {
        assert(0 <= width * height <= 0xffff_ffff * 0xffff_ffff) by (nonlinear_arith)
            requires
                0 <= width <= 0xffff_ffff,
                0 <= height <= 0xffff_ffff,
        ;
        assert(4 * width * height == (width * height) * 4) by (nonlinear_arith);
        let pixels: u128 = width as u128 * height as u128;
        let exact = pixels * 4 == buf.len() as u128 && width as u128 * 4 <= usize::MAX as u128;
        if exact {
            canvas_from_raw(width, height, buf)
        } else {
            None
        }
    }

    /// Gives the pixel buffer back.
    pub fn into_raw(self) -> (r: Vec<u8>)
        ensures
            r@ == self.bytes(),
    {
        canvas_into_raw(self)
    }

    /// Width and height in pixels.
    pub fn dimensions(&self) -> (r: (u32, u32))
        ensures
            r.0 == self.width(),
            r.1 == self.height(),
    {
        canvas_dimensions(self)
    }

    /// Reads the pixel at `(x, y)`; `None` outside the image.
    pub fn get(&self, x: u32, y: u32) -> (r: Option<Rgba>)
        requires
            self.wf(),
        ensures
            r is Some <==> within(self.width(), self.height(), x as int, y as int),
            r matches Some(px) ==> px == pixel_at(self.bytes(), self.width(), x as int, y as int),
    {
        let (w, h) = canvas_dimensions(self);
        if x < w && y < h {
            Some(canvas_get_pixel(self, x, y))
        } else {
            None
        }
    }

    /// Draws one coverage sample of colour `rgb` at `(x, y)`: composited over
    /// what is there when `blend` is set, written as it is otherwise. Samples
    /// without coverage and samples off the image are skipped.
    pub fn plot(&mut self, x: i64, y: i64, rgb: Rgb, alpha: u8, blend: bool)
        requires
            old(self).wf(),
        ensures
            final(self).wf(),
            canvas_size(*final(self)) == canvas_size(*old(self)),
            final(self).bytes() == plotted(
                old(self).bytes(),
                old(self).width(),
                old(self).height(),
                x as int,
                y as int,
                rgb,
                alpha,
                blend,
            ),
    {
        let (w, h) = canvas_dimensions(self);
        if alpha == 0 || x < 0 || y < 0 || x >= w as i64 || y >= h as i64 {
            return ;
        }
        let px: u32 = x as u32;
        let py: u32 = y as u32;
        proof {
            lemma_pixel_offset_bounds(self.width(), self.height(), x as int, y as int);
        }
        if blend {
            let dst = canvas_get_pixel(self, px, py);
            let out = blend_over(dst, rgb, alpha);
            canvas_put_pixel(self, px, py, out);
        } else {
            canvas_put_pixel(self, px, py, (rgb.0, rgb.1, rgb.2, alpha));
        }
    }

    /// Paints every pixel with `px`.
    pub fn fill(&mut self, px: Rgba)
        requires
            old(self).wf(),
        ensures
            final(self).wf(),
            canvas_size(*final(self)) == canvas_size(*old(self)),
            final(self).bytes() == solid(old(self).width(), old(self).height(), px),
    {
        let (w, h) = canvas_dimensions(self);
        let ghost size = canvas_size(*self);
        let mut y: u32 = 0;
        while y < h
            invariant
                0 <= y <= h,
                canvas_size(*self) == size,
                size == (w, h),
                self.wf(),
                forall|i: int| 0 <= i < 4 * (y * w) ==> #[trigger] self.bytes()[i] == channel(px, i % 4),
            decreases h - y,
        {
            let mut x: u32 = 0;
            while x < w
                invariant
                    0 <= x <= w,
                    0 <= y < h,
                    canvas_size(*self) == size,
                    size == (w, h),
                    self.wf(),
                    forall|i: int| 0 <= i < 4 * (y * w + x) ==> #[trigger] self.bytes()[i] == channel(px, i % 4),
                decreases w - x,
            {
                proof {
                    lemma_pixel_offset_bounds(w as int, h as int, x as int, y as int);
                }
                canvas_put_pixel(self, x, y, px);
                x += 1;
            }
            proof {
                assert((y + 1) * w == y * w + w) by (nonlinear_arith);
            }
            y += 1;
        }
        proof {
            assert(h * w == w * h) by (nonlinear_arith);
            assert(4 * (w * h) == 4 * w * h) by (nonlinear_arith);
            assert(self.bytes() =~= solid(w as int, h as int, px));
        }
    }
}

} // verus!
