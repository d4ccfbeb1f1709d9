//! The image that stands for a colour.
//!
//! A colour is shown as the smallest image there is: every pixel of a fixed
//! geometry filled with it, written as an 8-bit RGB PNG. The pixel buffer is
//! built from the same geometry that is handed to the encoder, so the two
//! cannot disagree.

use crate::color::Color;
use vstd::prelude::*;

verus! {

/// Width of the generated image, in pixels.
pub const WIDTH: u32 = 1;

/// Height of the generated image, in pixels.
pub const HEIGHT: u32 = 1;

/// Samples per pixel of an RGB image.
pub const CHANNELS: usize = 3;

/// The sample of `color` at channel `k`: red, green, blue for 0, 1, 2.
pub open spec fn channel(color: Color, k: int) -> u8 {
    if k == 0 {
        color.red
    } else if k == 1 {
        color.green
    } else {
        color.blue
    }
}

/// The samples of a `width` by `height` image filled with `color`, row by
/// row, three per pixel.
pub open spec fn solid(width: u32, height: u32, color: Color) -> Seq<u8> {
    Seq::new((CHANNELS * width * height) as nat, |i: int| channel(color, i % 3))
}

/// The PNG stream that the `image` crate writes for an 8-bit RGB image of
/// the given samples and geometry.
pub uninterp spec fn png_rgb8(pixels: Seq<u8>, width: u32, height: u32) -> Seq<u8>;

/// The bytes of the image that stands for `color`.
pub open spec fn encoded(color: Color) -> Seq<u8> {
    png_rgb8(solid(WIDTH, HEIGHT, color), WIDTH, HEIGHT)
}

/// `image::ImageBuffer::from_pixel` followed by `into_vec`: a buffer of
/// `width * height` pixels, each a copy of the given one, handed out as its
/// flat list of samples. The crate refuses a buffer whose length does not
/// fit, which `requires` leaves out. Trusted, not proved.
#[verifier::external_body]
fn solid_pixels(width: u32, height: u32, color: Color) -> (pixels: Vec<u8>)
    requires
        CHANNELS * width * height <= isize::MAX,
    ensures
        pixels@ == solid(width, height, color),
{
    let pixel = ::image::Rgb([color.red, color.green, color.blue]);
    ::image::ImageBuffer::from_pixel(width, height, pixel).into_vec()
}

/// `image::png::PNGEncoder::encode` with colour type `RGB(8)`, writing into
/// a fresh vector. The encoder fails only on an empty geometry, on a buffer
/// whose length is not that of the geometry, or when its writer fails; the
/// first two are left out by `requires` and a vector never fails, so the
/// vector then holds the whole stream. What it holds is given a name and not
/// spelled out. PNG compression is lossless, as the crate's documentation
/// of its `png` module says: the stream determines the samples it was made
/// from, which the second clause states. Trusted, not proved.
#[verifier::external_body]
fn png_encode(pixels: &Vec<u8>, width: u32, height: u32) -> (bytes: Vec<u8>)
    requires
        width >= 1,
        height >= 1,
        24 * width <= usize::MAX,
        pixels@.len() == CHANNELS * width * height,
    ensures
        bytes@ == png_rgb8(pixels@, width, height),
        forall|other: Seq<u8>|
            other.len() == pixels@.len() && #[trigger] png_rgb8(other, width, height) == bytes@
                ==> other == pixels@,
{
    let mut bytes = Vec::new();
    let _ = ::image::png::PNGEncoder::new(&mut bytes).encode(
        pixels,
        width,
        height,
        ::image::ColorType::RGB(8),
    );
    bytes
}

/// Encodes the image that stands for `color`.
///
/// The result is a function of the colour alone, and no other colour has
/// the same encoding.
pub fn encode(color: Color) -> (bytes: Vec<u8>)
    ensures
        bytes@ == encoded(color),
        forall|other: Color| #[trigger] encoded(other) == bytes@ ==> other == color,
{
    let pixels = solid_pixels(WIDTH, HEIGHT, color);
    let bytes = png_encode(&pixels, WIDTH, HEIGHT);
    assert forall|other: Color| #[trigger] encoded(other) == bytes@ implies other == color by {
        let theirs = solid(WIDTH, HEIGHT, other);
        assert(theirs.len() == pixels@.len());
        assert(theirs == pixels@);
        assert(theirs[0] == other.red && theirs[1] == other.green && theirs[2] == other.blue);
        assert(pixels@[0] == color.red && pixels@[1] == color.green && pixels@[2] == color.blue);
    }
    bytes
}

} // verus!
