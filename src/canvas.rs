use vstd::prelude::*;
use bmp::{Image, Pixel};

verus! {

#[verifier::external_type_specification]
#[verifier::external_body]
pub struct ExImage(Image);

/// The pixels of an image: each position `(x, y)` inside it, mapped to its
/// red, green and blue values.
pub uninterp spec fn canvas_pixels(img: Image) -> Map<(u32, u32), (u8, u8, u8)>;

/// The positions of a `width` x `height` image.
pub open spec fn grid(width: u32, height: u32) -> Set<(u32, u32)> {
    Set::new(|p: (u32, u32)| p.0 < width && p.1 < height)
}

/// Relies on bmp::Image::new: an image of the given size, every pixel black.
/// It computes `width * height` and the file size (about three bytes a
/// pixel) in `u32`; sides of at most 4096 keep both in range.
#[verifier::external_body]
pub(crate) fn new_canvas(width: u32, height: u32) -> (img: Image)
    requires
        width <= 4096,
        height <= 4096,
    ensures
        canvas_pixels(img).dom() == grid(width, height),
        forall|p: (u32, u32)| #[trigger]
            canvas_pixels(img).contains_key(p) ==> canvas_pixels(img)[p] == (0u8, 0u8, 0u8),
{
    Image::new(width, height)
}

/// Relies on bmp::Image::set_pixel: replaces the pixel at `(x, y)` and no other.
/// It indexes its pixel buffer, so the position must lie inside the image.
#[verifier::external_body]
pub(crate) fn paint(img: &mut Image, x: u32, y: u32, rgb: (u8, u8, u8))
    requires
        canvas_pixels(*old(img)).contains_key((x, y)),
    ensures
        canvas_pixels(*final(img)) == canvas_pixels(*old(img)).insert((x, y), rgb),
{
    img.set_pixel(x, y, Pixel { r: rgb.0, g: rgb.1, b: rgb.2 })
}

} // verus!
