//! The image that a graph is drawn on: an `image::RgbaImage` held out of
//! Verus's sight, with its size and its pixels given names that the
//! drawing operations speak of.

use crate::color::Rgba;
use image::ImageBuffer;
use imageproc::drawing::draw_filled_rect_mut;
use imageproc::rect::Rect;
use vstd::prelude::*;

verus! {

/// An RGBA image with 8-bit channels.
#[verifier::external_body]
pub struct Canvas {
    img: ImageBuffer<image::Rgba<u8>, Vec<u8>>,
}

/// The colour of each pixel of a canvas, keyed by `(x, y)`.
pub uninterp spec fn canvas_pixels(canvas: Canvas) -> Map<(int, int), Rgba>;

/// The width and height that a canvas was made with.
pub uninterp spec fn canvas_size(canvas: Canvas) -> (u32, u32);

/// Whether `p` lies on an image of the given width and height.
pub open spec fn on_image(size: (u32, u32), p: (int, int)) -> bool {
    0 <= p.0 < size.0 && 0 <= p.1 < size.1
}

/// An image of the given size all of one colour.
pub open spec fn solid(size: (u32, u32), color: Rgba) -> Map<(int, int), Rgba> {
    Map::new(|p: (int, int)| on_image(size, p), |p: (int, int)| color)
}

/// The rightmost column (or lowest row) that `imageproc::rect::Rect`
/// computes for a rectangle at `start` of the given extent: `start + extent
/// as i32 - 1`, with the extent read as an `i32`.
pub open spec fn rect_last(start: int, extent: u32) -> int {
    start + (extent as i32) as int - 1
}

/// Whether computing that last column or row, first the sum and then one
/// less, stays within `i32` and so does not overflow.
pub open spec fn rect_last_fits(start: int, extent: u32) -> bool {
    i32::MIN <= rect_last(start, extent) && rect_last(start, extent) + 1 <= i32::MAX
}

/// Whether pixel `p` of an image of the given size is covered when
/// `draw_filled_rect_mut` fills the rectangle at `(x, y)` of extent
/// `w` by `h`: it lies in the intersection of that rectangle with the
/// image's own bounding rectangle.
pub open spec fn filled_by(size: (u32, u32), x: int, y: int, w: u32, h: u32, p: (int, int)) -> bool {
    &&& x <= p.0 <= rect_last(x, w)
    &&& y <= p.1 <= rect_last(y, h)
    &&& p.0 <= rect_last(0, size.0)
    &&& p.1 <= rect_last(0, size.1)
}

impl Canvas {
    /// `ImageBuffer::from_pixel`: a new image of the given size with every
    /// pixel set to `color`.
    /// The claim: the image has that size and that colour everywhere.
    /// `from_pixel` panics when the buffer, four bytes per pixel, is larger
    /// than a vector can be; `requires` leaves that out.
    #[verifier::external_body]
    pub(crate) fn from_pixel(width: u32, height: u32, color: Rgba) -> (r: Canvas)
        requires
            (width as int) * (height as int) * 4 <= isize::MAX,
        ensures
            canvas_size(r) == (width, height),
            canvas_pixels(r) == solid((width, height), color),
    {
        Canvas { img: ImageBuffer::from_pixel(width, height, image::Rgba(color.0)) }
    }

    /// `ImageBuffer::width`: the width the image was made with.
    #[verifier::external_body]
    fn image_width(&self) -> (r: u32)
        ensures
            r == canvas_size(*self).0,
    {
        self.img.width()
    }

    /// `ImageBuffer::height`: the height the image was made with.
    #[verifier::external_body]
    fn image_height(&self) -> (r: u32)
        ensures
            r == canvas_size(*self).1,
    {
        self.img.height()
    }

    /// `ImageBuffer::get_pixel`: the colour of pixel `(x, y)`.
    /// The claim: it is the pixel's colour. `get_pixel` panics outside the
    /// image; `requires` leaves that out.
    #[verifier::external_body]
    fn image_pixel(&self, x: u32, y: u32) -> (r: Rgba)
        requires
            x < canvas_size(*self).0,
            y < canvas_size(*self).1,
        ensures
            r == canvas_pixels(*self)[(x as int, y as int)],
    {
        Rgba(self.img.get_pixel(x, y).0)
    }

    /// `ImageBuffer::put_pixel`: sets pixel `(x, y)` to `color`.
    /// The claim: that pixel, and no other, changes, to `color`; the size
    /// stays. `put_pixel` panics outside the image; `requires` leaves that
    /// out.
    #[verifier::external_body]
    pub(crate) fn put_pixel(&mut self, x: u32, y: u32, color: Rgba)
        requires
            x < canvas_size(*old(self)).0,
            y < canvas_size(*old(self)).1,
        ensures
            canvas_size(*final(self)) == canvas_size(*old(self)),
            canvas_pixels(*final(self)) == canvas_pixels(*old(self)).insert(
                (x as int, y as int),
                color,
            ),
    {
        self.img.put_pixel(x, y, image::Rgba(color.0))
    }

    /// `imageproc::drawing::draw_filled_rect_mut` on the rectangle
    /// `Rect::at(x, y).of_size(w, h)`.
    /// The claim, from the source: the pixels where that rectangle meets the
    /// image's bounding rectangle `Rect::at(0, 0).of_size(width, height)`
    /// are overwritten with `color`, no other pixel changes, and the size
    /// stays. It panics where `of_size` gets a zero extent (the rectangle's
    /// or the image's) and where computing the last column or row of either
    /// rectangle overflows an `i32`; `requires` leaves those out.
    #[verifier::external_body]
    pub(crate) fn fill_rect(&mut self, x: i32, y: i32, w: u32, h: u32, color: Rgba)
        requires
            w > 0,
            h > 0,
            canvas_size(*old(self)).0 > 0,
            canvas_size(*old(self)).1 > 0,
            rect_last_fits(0, canvas_size(*old(self)).0),
            rect_last_fits(0, canvas_size(*old(self)).1),
            rect_last_fits(x as int, w),
            rect_last_fits(y as int, h),
        ensures
            canvas_size(*final(self)) == canvas_size(*old(self)),
            canvas_pixels(*final(self)) == Map::new(
                |p: (int, int)| canvas_pixels(*old(self)).dom().contains(p),
                |p: (int, int)|
                    if filled_by(canvas_size(*old(self)), x as int, y as int, w, h, p) {
                        color
                    } else {
                        canvas_pixels(*old(self))[p]
                    },
            ),
    {
        draw_filled_rect_mut(&mut self.img, Rect::at(x, y).of_size(w, h), image::Rgba(color.0))
    }

    /// `ImageBuffer::into_raw`: the image's bytes.
    /// The claim, from the source: four bytes per pixel (red, green, blue,
    /// alpha), row after row from the top, each row from the left.
    #[verifier::external_body]
    fn image_into_raw(self) -> (r: Vec<u8>)
        ensures
            r@.len() == 4 * (canvas_size(self).0 as int) * (canvas_size(self).1 as int),
            forall|x: int, y: int, c: int|
                0 <= x < canvas_size(self).0 && 0 <= y < canvas_size(self).1 && 0 <= c < 4
                    ==> #[trigger] r@[4 * (y * canvas_size(self).0 + x) + c]
                    == canvas_pixels(self)[(x, y)].0[c],
    {
        self.img.into_raw()
    }

    /// The width of the image.
    pub fn width(&self) -> (r: u32)
        ensures
            r == canvas_size(*self).0,
    {
        self.image_width()
    }

    /// The height of the image.
    pub fn height(&self) -> (r: u32)
        ensures
            r == canvas_size(*self).1,
    {
        self.image_height()
    }

    /// The colour of pixel `(x, y)`.
    pub fn get_pixel(&self, x: u32, y: u32) -> (r: Rgba)
        requires
            x < canvas_size(*self).0,
            y < canvas_size(*self).1,
        ensures
            r == canvas_pixels(*self)[(x as int, y as int)],
    {
        self.image_pixel(x, y)
    }

    /// The image's bytes: four per pixel (red, green, blue, alpha), row
    /// after row from the top, each row from the left.
    pub fn into_rgba_bytes(self) -> (r: Vec<u8>)
        ensures
            r@.len() == 4 * (canvas_size(self).0 as int) * (canvas_size(self).1 as int),
            forall|x: int, y: int, c: int|
                0 <= x < canvas_size(self).0 && 0 <= y < canvas_size(self).1 && 0 <= c < 4
                    ==> #[trigger] r@[4 * (y * canvas_size(self).0 + x) + c]
                    == canvas_pixels(self)[(x, y)].0[c],
    {
        self.image_into_raw()
    }
}

} // verus!
