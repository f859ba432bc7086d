//! The pixel store: a `bmp::Image`, known to the verifier only through the
//! contracts stated here.

use vstd::prelude::*;
use crate::color::{black, Color};

verus! {

/// `bmp::Image`, carried as an opaque value: what it holds is told by
/// `image_width`, `image_height` and `image_pixels`.
#[verifier::external_type_specification]
#[verifier::external_body]
pub struct ExImage(bmp::Image);

/// Number of pixel columns of an image.
pub uninterp spec fn image_width(img: bmp::Image) -> nat;

/// Number of pixel rows of an image.
pub uninterp spec fn image_height(img: bmp::Image) -> nat;

/// The colour at each `(x, y)` of an image, `(0, 0)` being the upper left corner.
pub uninterp spec fn image_pixels(img: bmp::Image) -> Map<(int, int), Color>;

/// A `width` by `height` grid holding `color` everywhere.
pub open spec fn uniform_pixels(width: nat, height: nat, color: Color) -> Map<(int, int), Color> {
    Map::new(|p: (int, int)| 0 <= p.0 < width && 0 <= p.1 < height, |p: (int, int)| color)
}

/// Whether an image of this size can be made. The pixel store reckons in 32
/// bits the number of its pixels and the size of the file they will fill: a
/// header of 54 bytes and, for each row, no more than `4 * width + 4` bytes.
/// A size is supported when none of these numbers leaves that range.
pub open spec fn size_supported(width: nat, height: nat) -> bool {
    &&& 4 * width + 4 <= u32::MAX
    &&& 54 + height * (4 * width + 4) <= u32::MAX
}

/// Whether an image of this size is supported.
pub fn is_size_supported(width: u32, height: u32) -> (supported: bool)
    ensures
        supported == size_supported(width as nat, height as nat),
{
    let row: u128 = 4 * (width as u128) + 4;
    assert(height as u128 * row <= 0xffff_ffff * 0x4_0000_0000) by (nonlinear_arith)
        requires
            height <= 0xffff_ffff,
            row <= 0x4_0000_0000,
    ;
    row <= u32::MAX as u128 && 54 + (height as u128) * row <= u32::MAX as u128
}

/// A supported size has a width and a height below 2^30.
pub proof fn lemma_supported_size_is_small(width: nat, height: nat)
    requires
        size_supported(width, height),
    ensures
        width < 0x4000_0000,
        height < 0x4000_0000,
{
    assert(height * (4 * width + 4) >= height * 4) by (nonlinear_arith);
}

/// `bmp::Image::new`: an image of the given size, black everywhere.
#[verifier::external_body]
pub(crate) fn image_new(width: u32, height: u32) -> (img: bmp::Image)
    requires
        size_supported(width as nat, height as nat),
    ensures
        image_width(img) == width,
        image_height(img) == height,
        image_pixels(img) == uniform_pixels(width as nat, height as nat, black()),
{
    bmp::Image::new(width, height)
}

/// `Clone::clone` of `bmp::Image`: an image of the same size that shows
/// the same colours.
pub assume_specification[ <bmp::Image as Clone>::clone ](img: &bmp::Image) -> (copy: bmp::Image)
    ensures
        image_width(copy) == image_width(*img),
        image_height(copy) == image_height(*img),
        image_pixels(copy) == image_pixels(*img),
;

/// `bmp::Image::get_width`: the number of pixel columns.
#[verifier::external_body]
pub(crate) fn image_get_width(img: &bmp::Image) -> (w: u32)
    ensures
        w == image_width(*img),
{
    img.get_width()
}

/// `bmp::Image::get_height`: the number of pixel rows.
#[verifier::external_body]
pub(crate) fn image_get_height(img: &bmp::Image) -> (h: u32)
    ensures
        h == image_height(*img),
{
    img.get_height()
}

/// `bmp::Image::set_pixel`: stores `color` at `(x, y)` and touches nothing
/// else. The crate indexes its buffer unchecked, so the position must lie
/// inside the image.
#[verifier::external_body]
pub(crate) fn image_set_pixel(img: &mut bmp::Image, x: u32, y: u32, color: Color)
    requires
        x < image_width(*old(img)),
        y < image_height(*old(img)),
    ensures
        image_width(*final(img)) == image_width(*old(img)),
        image_height(*final(img)) == image_height(*old(img)),
        image_pixels(*final(img)) == image_pixels(*old(img)).insert((x as int, y as int), color),
{
    img.set_pixel(x, y, bmp::Pixel { r: color.r, g: color.g, b: color.b });
}

/// `bmp::Image::get_pixel`: the colour stored at `(x, y)`, which must lie
/// inside the image.
#[verifier::external_body]
pub(crate) fn image_get_pixel(img: &bmp::Image, x: u32, y: u32) -> (color: Color)
    requires
        x < image_width(*img),
        y < image_height(*img),
    ensures
        color == image_pixels(*img)[(x as int, y as int)],
{
    let p = img.get_pixel(x, y);
    Color { r: p.r, g: p.g, b: p.b }
}

} // verus!
