//! Image decoding, encoding and array shapes, as the `image` and `ndarray`
//! crates provide them.

use image::ImageEncoder;
use vstd::prelude::*;

verus! {

/// `ndarray::ShapeError`, the reason why a vector does not fit a shape.
#[verifier::external_type_specification]
#[verifier::external_body]
pub struct ExShapeError(ndarray::ShapeError);

/// The length of an axis as the size limit counts it: empty axes do not
/// matter.
pub open spec fn counted_axis(n: nat) -> nat {
    if n == 0 {
        1
    } else {
        n
    }
}

/// The product of the non-empty axes stays within `isize::MAX`.
pub open spec fn shape_fits(height: nat, width: nat, channels: nat) -> bool {
    counted_axis(height) * counted_axis(width) * counted_axis(channels) <= isize::MAX
}

/// `Array3::from_shape_vec` followed by `into_raw_vec_and_offset`: a vector is
/// accepted as an array of the given shape exactly where the shape is within
/// the size limit and the vector has as many elements as the shape; the
/// elements keep their order.
#[verifier::external_body]
pub(crate) fn shaped(height: usize, width: usize, channels: usize, data: Vec<u8>) -> (r: Result<
    Vec<u8>,
    ndarray::ShapeError,
>)
    ensures
        match r {
            Ok(d) => {
                &&& shape_fits(height as nat, width as nat, channels as nat)
                &&& data@.len() == height * width * channels
                &&& d@ == data@
            },
            Err(_) => !(shape_fits(height as nat, width as nat, channels as nat) && data@.len()
                == height * width * channels),
        },
{
    ndarray::Array3::from_shape_vec((height, width, channels), data).map(
        |array| array.into_raw_vec_and_offset().0,
    )
}

/// What `image::load_from_memory` and `DynamicImage::to_rgb8` read from an
/// encoded image: width, height and interleaved RGB samples, or the text of
/// the error.
pub uninterp spec fn decoded_rgb8(data: Seq<u8>) -> Result<(u32, u32, Seq<u8>), Seq<char>>;

/// `image::load_from_memory` followed by `DynamicImage::to_rgb8`. The result
/// is named by `decoded_rgb8`; a decoded image has three samples per pixel.
#[verifier::external_body]
pub(crate) fn decode_rgb8(data: &[u8]) -> (r: Result<(u32, u32, Vec<u8>), String>)
    ensures
        match r {
            Ok((width, height, pixels)) => {
                &&& decoded_rgb8(data@) == Ok::<(u32, u32, Seq<u8>), Seq<char>>(
                    (width, height, pixels@),
                )
                &&& pixels@.len() == width * height * 3
            },
            Err(text) => decoded_rgb8(data@) == Err::<(u32, u32, Seq<u8>), Seq<char>>(text@),
        },
{
    match image::load_from_memory(data) {
        Ok(decoded) => {
            let rgb = decoded.to_rgb8();
            Ok((rgb.width(), rgb.height(), rgb.into_raw()))
        },
        Err(error) => Err(error.to_string()),
    }
}

/// What `JpegEncoder::write_image` makes of interleaved RGB samples at a
/// quality: the JPEG file, or the text of the error.
pub uninterp spec fn jpeg_file(pixels: Seq<u8>, width: u32, height: u32, quality: u8) -> Result<
    Seq<u8>,
    Seq<char>,
>;

/// The sides of an image that JPEG can hold.
pub open spec fn jpeg_size_ok(width: u32, height: u32) -> bool {
    1 <= width <= 65535 && 1 <= height <= 65535
}

/// `JpegEncoder::new_with_quality` and `write_image` with `Rgb8` samples. The
/// result is named by `jpeg_file`. The encoder accepts exactly the sizes that
/// JPEG can hold, and a file starts with the SOI marker and ends with the EOI
/// marker. It panics where the number of samples is not that of the size.
#[verifier::external_body]
pub(crate) fn encode_jpeg(pixels: &[u8], width: u32, height: u32, quality: u8) -> (r: Result<
    Vec<u8>,
    String,
>)
    requires
        pixels@.len() == width * height * 3,
    ensures
        match r {
            Ok(file) => {
                &&& jpeg_file(pixels@, width, height, quality) == Ok::<Seq<u8>, Seq<char>>(file@)
                &&& jpeg_size_ok(width, height)
                &&& file@.len() >= 4
                &&& file@[0] == 0xff && file@[1] == 0xd8
                &&& file@[file@.len() - 2] == 0xff && file@[file@.len() - 1] == 0xd9
            },
            Err(text) => {
                &&& jpeg_file(pixels@, width, height, quality) == Err::<Seq<u8>, Seq<char>>(text@)
                &&& !jpeg_size_ok(width, height)
            },
        },
{
    let mut file = Vec::new();
    let encoder = image::codecs::jpeg::JpegEncoder::new_with_quality(&mut file, quality);
    match encoder.write_image(pixels, width, height, image::ExtendedColorType::Rgb8) {
        Ok(()) => Ok(file),
        Err(error) => Err(error.to_string()),
    }
}

/// What `PngEncoder::write_image`, set to fast compression without filter,
/// makes of interleaved RGB samples: the PNG file, or the text of the error.
pub uninterp spec fn png_file(pixels: Seq<u8>, width: u32, height: u32) -> Result<
    Seq<u8>,
    Seq<char>,
>;

/// `PngEncoder::new_with_quality` (`CompressionType::Fast`,
/// `FilterType::NoFilter`) and `write_image` with `Rgb8` samples. The result
/// is named by `png_file`; an image without pixels is an error. It panics
/// where the number of samples is not that of the size.
#[verifier::external_body]
pub(crate) fn encode_png(pixels: &[u8], width: u32, height: u32) -> (r: Result<Vec<u8>, String>)
    requires
        pixels@.len() == width * height * 3,
    ensures
        match r {
            Ok(file) => {
                &&& png_file(pixels@, width, height) == Ok::<Seq<u8>, Seq<char>>(file@)
                &&& width > 0 && height > 0
            },
            Err(text) => png_file(pixels@, width, height) == Err::<Seq<u8>, Seq<char>>(text@),
        },
{
    let mut file = Vec::new();
    let encoder = image::codecs::png::PngEncoder::new_with_quality(
        &mut file,
        image::codecs::png::CompressionType::Fast,
        image::codecs::png::FilterType::NoFilter,
    );
    match encoder.write_image(pixels, width, height, image::ExtendedColorType::Rgb8) {
        Ok(()) => Ok(file),
        Err(error) => Err(error.to_string()),
    }
}

} // verus!
