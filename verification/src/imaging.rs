//! Handing the output buffer to the `image` crate, which encodes it.
//!
//! The image is the crate's own buffer type. Verus sees nothing inside it: what it
//! holds is named by three uninterpreted functions, and the contracts of the three
//! wrappers below say what the crate's operations do to those. These contracts are
//! taken from the crate's source and are not proved.

use vstd::prelude::*;
use crate::color::PixelColor;
use crate::grid::lemma_coordinates_in_range;
use crate::render::OutputBuffer;

verus! {

/// An RGB image of the `image` crate: eight bits per channel, samples in a `Vec<u8>`.
#[verifier::external_body]
pub struct RgbImage {
    inner: image::ImageBuffer<image::Rgb<u8>, Vec<u8>>,
}

/// The samples of an image, row by row, three per pixel in the order red, green,
/// blue: the pixel `(x, y)` starts at index `3 * (y * width + x)`.
pub uninterp spec fn image_samples(img: RgbImage) -> Seq<u8>;

/// The number of pixels in each row of an image.
pub uninterp spec fn image_width(img: RgbImage) -> nat;

/// The number of rows of an image.
pub uninterp spec fn image_height(img: RgbImage) -> nat;

/// The channel of a colour at position 0 (red), 1 (green) or 2 (blue).
pub open spec fn channel_of(color: PixelColor, position: int) -> u8 {
    if position == 0 {
        color.red
    } else if position == 1 {
        color.green
    } else {
        color.blue
    }
}

/// The samples of a sequence of pixels: the three channels of each, in order.
pub open spec fn samples_of(pixels: Seq<PixelColor>) -> Seq<u8> {
    Seq::new(3 * pixels.len(), |i: int| channel_of(pixels[i / 3], i % 3))
}

/// `image::ImageBuffer::new`: an image of the given dimensions, with
/// `3 * width * height` samples that are all zero. The outside function multiplies
/// three by the width and then by the height, and panics when a product overflows or
/// exceeds what a vector can hold; the precondition leaves such dimensions out.
#[verifier::external_body]
pub(crate) fn blank_image(width: u32, height: u32) -> (img: RgbImage)
    requires
        3 * width <= usize::MAX,
        3 * (width * height) <= isize::MAX,
    ensures
        image_width(img) == width,
        image_height(img) == height,
        image_samples(img).len() == 3 * (width * height),
        forall|i: int| 0 <= i < 3 * (width * height) ==> image_samples(img)[i] == 0,
{
    RgbImage { inner: image::ImageBuffer::new(width, height) }
}

/// `image::ImageBuffer::put_pixel`: overwrites the three samples of the pixel
/// `(x, y)` and leaves the dimensions and every other sample as they were. The
/// outside function panics on coordinates outside the image; the precondition
/// leaves them out.
#[verifier::external_body]
pub(crate) fn put_rgb(img: &mut RgbImage, x: u32, y: u32, red: u8, green: u8, blue: u8)
    requires
        x < image_width(*old(img)),
        y < image_height(*old(img)),
    ensures
        image_width(*final(img)) == image_width(*old(img)),
        image_height(*final(img)) == image_height(*old(img)),
        image_samples(*final(img)) == image_samples(*old(img)).update(
            3 * (y * image_width(*old(img)) + x),
            red,
        ).update(3 * (y * image_width(*old(img)) + x) + 1, green).update(
            3 * (y * image_width(*old(img)) + x) + 2,
            blue,
        ),
{
    img.inner.put_pixel(x, y, image::Rgb([red, green, blue]))
}

/// `image::ImageBuffer::into_raw`: the vector that holds the samples.
#[verifier::external_body]
pub(crate) fn take_samples(img: RgbImage) -> (raw: Vec<u8>)
    ensures
        raw@ == image_samples(img),
{
    img.inner.into_raw()
}

impl RgbImage {
    /// Gives up the image for its samples, ready for an encoder.
    pub fn into_raw(self) -> (raw: Vec<u8>)
        ensures
            raw@ == image_samples(self),
    {
        take_samples(self)
    }
}

/// Copies the buffer into an image of the same dimensions, pixel by pixel.
///
/// Returns `None` when the image would need more samples than a vector can hold.
pub fn to_image(buffer: &OutputBuffer) -> (result: Option<RgbImage>)
    ensures
        result is Some <==> 3 * (buffer@.width * buffer@.height) <= isize::MAX,
        result matches Some(img) ==> {
            &&& image_width(img) == buffer@.width
            &&& image_height(img) == buffer@.height
            &&& image_samples(img) == samples_of(buffer@.pixels)
        },
{
    let width: u32 = buffer.width();
    let height: u32 = buffer.height();
    let pixels = buffer.pixels();
    assert(width * height <= 0xffff_ffff * 0xffff_ffff) by (nonlinear_arith)
        requires
            width <= 0xffff_ffff,
            height <= 0xffff_ffff,
    ;
    let needed: u128 = 3 * ((width as u128) * (height as u128));
    if needed > isize::MAX as u128 {
        return None;
    }
    assert(3 * width <= 3 * (width * height)) by (nonlinear_arith)
        requires
            height >= 1,
    ;
    let mut img = blank_image(width, height);
    let mut i: usize = 0;
    while i < pixels.len()
        invariant
            i <= pixels.len(),
            pixels.len() == width * height,
            image_width(img) == width,
            image_height(img) == height,
            image_samples(img).len() == 3 * pixels.len(),
            forall|j: int| 0 <= j < 3 * i ==> image_samples(img)[j] == samples_of(pixels@)[j],
        decreases pixels.len() - i,
    {
        let color = pixels[i];
        proof {
            lemma_coordinates_in_range(width, height, i as int);
        }
        let x: u32 = (i % width as usize) as u32;
        let y: u32 = (i / width as usize) as u32;
        let ghost before = image_samples(img);
        put_rgb(&mut img, x, y, color.red, color.green, color.blue);
        proof {
            let after = image_samples(img);
            assert(3 * (y * width + x) == 3 * i);
            assert forall|j: int| 0 <= j < 3 * (i + 1) implies after[j] == samples_of(pixels@)[j] by {
                if j < 3 * i {
                    assert(after[j] == before[j]);
                } else {
                    assert(j / 3 == i as int);
                    assert(j % 3 == j - 3 * i);
                }
            }
        }
        i += 1;
    }
    assert(image_samples(img) =~= samples_of(pixels@));
    Some(img)
}

} // verus!
