//! The pixel buffer that the tray icon is drawn on.
use image::{ImageBuffer, Rgba};
use vstd::prelude::*;

verus! {

/// A picture of 8-bit RGBA pixels, kept in an `image::ImageBuffer`.
///
/// `ImageBuffer` is generic over a trait of its own crate, so the buffer is held here in a private
/// field, and its contents are spoken of through [`canvas_size`] and [`canvas_pixels`].
#[verifier::external_body]
pub struct Canvas {
    img: ImageBuffer<Rgba<u8>, Vec<u8>>,
}

/// Width and height that a canvas was made with.
pub uninterp spec fn canvas_size(canvas: Canvas) -> (u32, u32);

/// The colour, as red, green, blue and alpha, of each position `(x, y)` of a canvas.
pub uninterp spec fn canvas_pixels(canvas: Canvas) -> Map<(u32, u32), [u8; 4]>;

/// Position, in the raw bytes of a picture of the given width, of channel `k` of the pixel
/// `(x, y)`: rows from top to bottom, pixels from left to right, four bytes each.
pub open spec fn byte_index(width: int, x: int, y: int, k: int) -> int {
    4 * (y * width + x) + k
}

/// Whether `pixels` has exactly the positions inside `width` by `height`, all of one colour.
pub open spec fn filled(
    pixels: Map<(u32, u32), [u8; 4]>,
    width: u32,
    height: u32,
    color: [u8; 4],
) -> bool {
    &&& forall|x: u32, y: u32| #[trigger]
        pixels.dom().contains((x, y)) <==> x < width && y < height
    &&& forall|x: u32, y: u32| x < width && y < height ==> #[trigger] pixels[(x, y)] == color
}

/// Whether `bytes` lays out the picture row by row from the top, each row from the left, with four
/// bytes to a pixel and nothing after them.
pub open spec fn laid_out(
    bytes: Seq<u8>,
    pixels: Map<(u32, u32), [u8; 4]>,
    width: u32,
    height: u32,
) -> bool {
    &&& bytes.len() == 4 * width * height
    &&& forall|x: u32, y: u32, k: int|
        x < width && y < height && 0 <= k < 4 ==> #[trigger] bytes[byte_index(
            width as int,
            x as int,
            y as int,
            k,
        )] == pixels[(x, y)][k]
}

impl Canvas {
    /// `ImageBuffer::from_pixel`: a picture of the given size with every pixel of one colour.
    ///
    /// Claimed: it has that size, its pixels are exactly the positions inside it, and each holds
    /// the colour. The call panics where the bytes of one row, or those of the picture, outgrow a
    /// `usize`, and where those of the picture outgrow a vector; these sizes are left out.
    #[verifier::external_body]
    pub(crate) fn from_pixel(width: u32, height: u32, color: [u8; 4]) -> (canvas: Canvas)
        requires
            4 * width <= usize::MAX,
            4 * width * height <= isize::MAX,
        ensures
            canvas_size(canvas) == (width, height),
            filled(canvas_pixels(canvas), width, height, color),
    {
        Canvas { img: ImageBuffer::from_pixel(width, height, Rgba(color)) }
    }

    /// `ImageBuffer::width`: the width the picture was made with.
    #[verifier::external_body]
    pub(crate) fn width(&self) -> (width: u32)
        ensures
            width == canvas_size(*self).0,
    {
        self.img.width()
    }

    /// `ImageBuffer::height`: the height the picture was made with.
    #[verifier::external_body]
    pub(crate) fn height(&self) -> (height: u32)
        ensures
            height == canvas_size(*self).1,
    {
        self.img.height()
    }

    /// `ImageBuffer::get_pixel_mut`, with a colour written through the reference it returns.
    ///
    /// Claimed: the pixel at `(x, y)` holds the colour and nothing else changes. The call panics
    /// outside the picture; those positions are left out.
    #[verifier::external_body]
    pub(crate) fn set_pixel(&mut self, x: u32, y: u32, color: [u8; 4])
        requires
            x < canvas_size(*old(self)).0,
            y < canvas_size(*old(self)).1,
        ensures
            canvas_size(*final(self)) == canvas_size(*old(self)),
            canvas_pixels(*final(self)) == canvas_pixels(*old(self)).insert((x, y), color),
    {
        *self.img.get_pixel_mut(x, y) = Rgba(color);
    }

    /// `ImageBuffer::into_raw`: the bytes of the picture.
    ///
    /// Claimed: four bytes for each pixel, row by row from the top, each row from the left.
    #[verifier::external_body]
    pub(crate) fn into_raw(self) -> (bytes: Vec<u8>)
        ensures
            laid_out(bytes@, canvas_pixels(self), canvas_size(self).0, canvas_size(self).1),
    {
        self.img.into_raw()
    }
}

} // verus!
