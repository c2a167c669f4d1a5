//! The raw picture, the rule that tells foreground from background, and the
//! binary image that the rule makes of the picture.

use visioncortex::BinaryImage;
use visioncortex::ColorImage;
use vstd::prelude::*;

verus! {

/// A picture as the host hands it over: `width * height` pixels, row by row
/// from the top, four bytes each (red, green, blue, alpha).
pub struct RawImageData {
    pub data: Vec<u8>,
    pub width: usize,
    pub height: usize,
}

/// `BinaryImage` of visioncortex: a value that is carried, never looked into.
#[verifier::external_type_specification]
#[verifier::external_body]
pub struct ExBinaryImage(visioncortex::BinaryImage);

/// The number of columns of a binary image.
pub uninterp spec fn image_width(image: BinaryImage) -> nat;

/// The number of rows of a binary image.
pub uninterp spec fn image_height(image: BinaryImage) -> nat;

/// The pixels of a binary image, row by row from the top; `true` is foreground.
pub uninterp spec fn image_pixels(image: BinaryImage) -> Seq<bool>;

/// The one rule of classification: a pixel is foreground when its red channel
/// is below 128, or above 128 when the picture is inverted. Green, blue and
/// alpha are not looked at, and a red of exactly 128 is background either way.
pub open spec fn is_foreground(red: u8, invert: bool) -> bool {
    if invert {
        red > 128
    } else {
        red < 128
    }
}

/// Applies the rule to one red value.
pub fn foreground(red: u8, invert: bool) -> (fg: bool)
    ensures
        fg == is_foreground(red, invert),
{
    if invert {
        red > 128
    } else {
        red < 128
    }
}

/// The classification of a whole buffer: pixel `i` of the result goes by the
/// red byte of pixel `i` of the buffer, which is byte `4 * i`.
pub open spec fn classified(data: Seq<u8>, width: nat, height: nat, invert: bool) -> Seq<bool> {
    Seq::new(width * height, |i: int| is_foreground(data[4 * i], invert))
}

/// Calls `ColorImage::to_binary_image` of visioncortex, with [`foreground`] as
/// the predicate. That function makes an image of the same width and height
/// and sets each pixel to what the predicate says of the colour at the same
/// place; it reads four bytes per pixel and indexes past the end of a buffer
/// that is shorter, which the precondition rules out.
#[verifier::external_body]
pub(crate) fn to_binary_image(
    data: Vec<u8>,
    width: usize,
    height: usize,
    invert: bool,
) -> (image: BinaryImage)
    requires
        4 * (width * height) <= data@.len(),
    ensures
        image_width(image) == width,
        image_height(image) == height,
        image_pixels(image) == classified(data@, width as nat, height as nat, invert),
{
    ColorImage { pixels: data, width, height }.to_binary_image(|c| foreground(c.r, invert))
}

} // verus!
