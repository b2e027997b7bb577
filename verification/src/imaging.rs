//! The image codec: from an array of channel intensities to an image, to the
//! bytes of an image file, and from such bytes back to an array.
//!
//! An array of rank 2 and shape `[height, width]` is a gray image. An array
//! of rank 3 and shape `[height, width, channels]` is a gray image for 1
//! channel, gray with alpha for 2, RGB for 3 and RGBA for 4.

use crate::text::{
    bytes_result_is, chars_of, decimal, decimal_string, same_text, string_from_chars,
};
use crate::value::{
    bytes_to_items, lemma_size_written_out, set_bytes, Array, Byte, Num, Value,
};
use vstd::prelude::*;
use vstd::string::*;

verus! {

/// `image::DynamicImage`, an image of the `image` crate. What it holds is
/// known by `image_layout` and `image_samples` alone.
#[verifier::external_type_specification]
#[verifier::external_body]
pub struct ExDynamicImage(image::DynamicImage);

/// The layout of an image: its height, its width, the number of channels of
/// a pixel and the number of bytes of a channel, in this order.
pub uninterp spec fn image_layout(img: image::DynamicImage) -> Seq<nat>;

/// The samples of an image as bytes: row by row from the top, pixel by pixel
/// from the left, channel by channel, and a channel of more than one byte
/// from its least significant byte.
pub uninterp spec fn image_samples(img: image::DynamicImage) -> Seq<u8>;

/// What the `image` crate writes for an image of the given layout and samples
/// in the given file format: the bytes of the file, or the encoder's message.
pub uninterp spec fn image_file(layout: Seq<nat>, samples: Seq<u8>, format: ImageFormat) -> Result<
    Seq<u8>,
    Seq<char>,
>;

/// What the `image` crate reads from the bytes of an image file: the layout
/// and the samples of the image, or the decoder's message.
pub uninterp spec fn image_read(bytes: Seq<u8>) -> Result<(Seq<nat>, Seq<u8>), Seq<char>>;

/// The samples of an image of the given layout and samples after the `image`
/// crate's conversion to 8-bit RGBA.
pub uninterp spec fn rgba_samples(layout: Seq<nat>, samples: Seq<u8>) -> Seq<u8>;

/// The layout of an image of the given height, width, number of channels of
/// a pixel and number of bytes of a channel.
pub open spec fn layout_of(height: nat, width: nat, channels: nat, depth: nat) -> Seq<nat> {
    seq![height, width, channels, depth]
}

/// The file formats that an image can be written in.
#[derive(Clone, Copy, Debug, PartialEq, Eq)]
pub enum ImageFormat {
    /// JPEG at the given quality, which the encoder keeps between 1 and 100.
    Jpeg(u8),
    Png,
    Bmp,
    Gif,
    Ico,
}

/// Whether an 8-bit image of the given layout is within the sizes that the
/// encoder of a format computes with. Every encoder needs a row, and the
/// image as RGBA, to fit the machine's sizes. The BMP encoder counts in 32
/// bits: four times the width, three times the height and the number of
/// samples have to fit.
pub open spec fn can_encode(format: ImageFormat, layout: Seq<nat>) -> bool {
    let height = layout[0];
    let width = layout[1];
    let channels = layout[2];
    &&& 4 * width + 1 <= usize::MAX
    &&& 4 * height * width <= usize::MAX
    &&& format is Bmp ==> 4 * width <= u32::MAX && 3 * height <= u32::MAX && channels * width
        * height <= u32::MAX
}

/// `ImageBuffer::from_raw` for 8-bit gray pixels, with the buffer made a
/// `DynamicImage`. It succeeds if and only if the size of a row fits the
/// machine and the buffer holds at least one byte for each pixel; the image
/// then has the given width and height, and its samples are the bytes that
/// the pixels take from the front of the buffer.
#[verifier::external_body]
fn gray_image(width: u32, height: u32, samples: Vec<u8>) -> (made: Option<image::DynamicImage>)
    ensures
        match made {
            Some(img) => width <= usize::MAX && width * height <= samples@.len()
                && image_layout(img) == layout_of(height as nat, width as nat, 1, 1)
                && image_samples(img) == samples@.take(width * height),
            None => !(width <= usize::MAX && width * height <= samples@.len()),
        },
{
    image::GrayImage::from_raw(width, height, samples).map(image::DynamicImage::ImageLuma8)
}

/// `ImageBuffer::from_raw` for 8-bit pixels of gray and alpha, with the
/// buffer made a `DynamicImage`: as for gray, with 2 bytes for each pixel.
#[verifier::external_body]
fn gray_alpha_image(width: u32, height: u32, samples: Vec<u8>) -> (made: Option<
    image::DynamicImage,
>)
    ensures
        match made {
            Some(img) => 2 * width <= usize::MAX && 2 * width * height <= samples@.len()
                && image_layout(img) == layout_of(height as nat, width as nat, 2, 1)
                && image_samples(img) == samples@.take(2 * width * height),
            None => !(2 * width <= usize::MAX && 2 * width * height <= samples@.len()),
        },
{
    image::GrayAlphaImage::from_raw(width, height, samples).map(image::DynamicImage::ImageLumaA8)
}

/// `ImageBuffer::from_raw` for 8-bit RGB pixels, with the buffer made a
/// `DynamicImage`: as for gray, with 3 bytes for each pixel.
#[verifier::external_body]
fn rgb_image(width: u32, height: u32, samples: Vec<u8>) -> (made: Option<image::DynamicImage>)
    ensures
        match made {
            Some(img) => 3 * width <= usize::MAX && 3 * width * height <= samples@.len()
                && image_layout(img) == layout_of(height as nat, width as nat, 3, 1)
                && image_samples(img) == samples@.take(3 * width * height),
            None => !(3 * width <= usize::MAX && 3 * width * height <= samples@.len()),
        },
{
    image::RgbImage::from_raw(width, height, samples).map(image::DynamicImage::ImageRgb8)
}

/// `ImageBuffer::from_raw` for 8-bit RGBA pixels, with the buffer made a
/// `DynamicImage`: as for gray, with 4 bytes for each pixel.
#[verifier::external_body]
fn rgba_image(width: u32, height: u32, samples: Vec<u8>) -> (made: Option<image::DynamicImage>)
    ensures
        match made {
            Some(img) => 4 * width <= usize::MAX && 4 * width * height <= samples@.len()
                && image_layout(img) == layout_of(height as nat, width as nat, 4, 1)
                && image_samples(img) == samples@.take(4 * width * height),
            None => !(4 * width <= usize::MAX && 4 * width * height <= samples@.len()),
        },
{
    image::RgbaImage::from_raw(width, height, samples).map(image::DynamicImage::ImageRgba8)
}

/// `DynamicImage::width`: the second entry of the layout.
#[verifier::external_body]
fn image_width(img: &image::DynamicImage) -> (width: u32)
    ensures
        width == image_layout(*img)[1],
{
    img.width()
}

/// `DynamicImage::height`: the first entry of the layout.
#[verifier::external_body]
fn image_height(img: &image::DynamicImage) -> (height: u32)
    ensures
        height == image_layout(*img)[0],
{
    img.height()
}

/// `DynamicImage::color`, then `ColorType::channel_count`: the number of
/// channels of a pixel, the third entry of the layout, which is from 1 to 4.
#[verifier::external_body]
fn image_channels(img: &image::DynamicImage) -> (channels: u8)
    ensures
        1 <= channels <= 4,
        channels == image_layout(*img)[2],
{
    img.color().channel_count()
}

/// `DynamicImage::color`, then `ColorType::bytes_per_pixel`: the number of
/// bytes of a pixel, which is the number of channels times the bytes of a
/// channel, the third and fourth entries of the layout.
#[verifier::external_body]
fn image_pixel_bytes(img: &image::DynamicImage) -> (bytes: u8)
    ensures
        bytes == image_layout(*img)[2] * image_layout(*img)[3],
{
    img.color().bytes_per_pixel()
}

/// `DynamicImage::write_to` into an empty cursor: the bytes of the file, or
/// the encoder's error as text. The result is a function of the image's
/// layout and samples and of the format. It is stated of 8-bit images, and
/// not of those on whose sizes the arithmetic of the format's encoder can
/// overflow: `can_encode` says which are within them.
#[verifier::external_body]
fn write_image(img: &image::DynamicImage, format: ImageFormat) -> (r: Result<Vec<u8>, String>)
    requires
        image_layout(*img)[3] == 1,
        can_encode(format, image_layout(*img)),
    ensures
        bytes_result_is(r, image_file(image_layout(*img), image_samples(*img), format)),
{
    let mut out = std::io::Cursor::new(Vec::new());
    let target = match format {
        ImageFormat::Jpeg(quality) => image::ImageOutputFormat::Jpeg(quality),
        ImageFormat::Png => image::ImageOutputFormat::Png,
        ImageFormat::Bmp => image::ImageOutputFormat::Bmp,
        ImageFormat::Gif => image::ImageOutputFormat::Gif,
        ImageFormat::Ico => image::ImageOutputFormat::Ico,
    };
    match img.write_to(&mut out, target) {
        Ok(()) => Ok(out.into_inner()),
        Err(e) => Err(e.to_string()),
    }
}

/// `image::load_from_memory`: the image that the bytes encode, in the format
/// that their first bytes tell, or the decoder's error as text. The result is
/// a function of the bytes.
#[verifier::external_body]
fn read_image(bytes: &Vec<u8>) -> (r: Result<image::DynamicImage, String>)
    ensures
        match image_read(bytes@) {
            Ok((layout, samples)) => r matches Ok(img) && image_layout(img) == layout
                && image_samples(img) == samples,
            Err(message) => r matches Err(e) && e@ == message,
        },
{
    match image::load_from_memory(bytes.as_slice()) {
        Ok(img) => Ok(img),
        Err(e) => Err(e.to_string()),
    }
}

/// `DynamicImage::into_rgba8`, then `ImageBuffer::into_raw`: the buffer of
/// the image converted to 8-bit RGBA. It holds 4 bytes for each pixel at its
/// front, and those are a function of the image's layout and samples. (An
/// image that was RGBA already gives up its own buffer, which may be longer.)
/// Left out are the images for which the conversion panics: those with
/// more pixels than the machine can hold as RGBA, and those with
/// floating-point samples, which may hold what is not a number.
#[verifier::external_body]
fn into_rgba(img: image::DynamicImage) -> (raw: Vec<u8>)
    requires
        image_layout(img)[3] != 4,
        4 * image_layout(img)[0] * image_layout(img)[1] <= usize::MAX,
    ensures
        raw@.len() >= 4 * image_layout(img)[0] * image_layout(img)[1],
        raw@.take((4 * image_layout(img)[0] * image_layout(img)[1]) as int) == rgba_samples(
            image_layout(img),
            image_samples(img),
        ),
{
    img.into_rgba8().into_raw()
}

/// The channel intensity that a byte element stands for: none for 0 and for
/// an unset element, full for anything else.
pub open spec fn byte_level(b: Byte) -> u8 {
    if b.or_value(0) == 0 {
        0
    } else {
        255
    }
}

/// The channel intensities of a numeric array: the intensity form of each
/// number, and none or full for each byte. `None` for a value that is not
/// numeric.
pub open spec fn levels_of(value: Value) -> Option<Seq<u8>> {
    match value {
        Value::Num(a) => Some(a.items().map_values(|n: Num| n.level)),
        Value::Byte(a) => Some(a.items().map_values(|b: Byte| byte_level(b))),
        _ => None,
    }
}

/// The dimensions of the array in a value; a list of strings has none of its
/// own.
pub open spec fn dims_of(value: Value) -> Seq<usize> {
    match value {
        Value::Num(a) => a.dims(),
        Value::Byte(a) => a.dims(),
        Value::Char(a) => a.dims(),
        Value::Lines(_) => Seq::<usize>::empty(),
    }
}

/// What the image codec makes of a value: the layout and the samples of the
/// image, or the error message.
pub open spec fn image_of(value: Value) -> Result<(Seq<nat>, Seq<u8>), Seq<char>> {
    let rank = value.rank_of();
    if rank != 2 && rank != 3 {
        Err("Image must be a rank 2 or 3 numeric array, but it is rank "@ + decimal(rank))
    } else {
        match levels_of(value) {
            None => Err("Image must be a numeric array"@),
            Some(levels) => {
                let dims = dims_of(value);
                let height = dims[0] as nat;
                let width = dims[1] as nat;
                let channels = if rank == 2 {
                    1
                } else {
                    dims[2] as nat
                };
                if channels < 1 || channels > 4 {
                    Err(
                        "For a color image, the last dimension of the image array must be between 1 and 4 but it is "@
                            + decimal(channels),
                    )
                } else if height > u32::MAX || width > u32::MAX || channels * width
                    > usize::MAX {
                    Err("Failed to create image"@)
                } else {
                    Ok((layout_of(height, width, channels, 1), levels))
                }
            },
        }
    }
}

/// Whether a result holds an image of the layout and samples, or the message,
/// that are expected of it.
pub open spec fn image_result_is(
    r: Result<image::DynamicImage, String>,
    expected: Result<(Seq<nat>, Seq<u8>), Seq<char>>,
) -> bool {
    match expected {
        Ok((layout, samples)) => r matches Ok(img) && image_layout(img) == layout
            && image_samples(img) == samples,
        Err(message) => r matches Err(e) && e@ == message,
    }
}

/// Makes an image of an array of channel intensities.
///
/// A rank other than 2 and 3, a value that is not numeric and a channel count
/// outside 1 to 4 are errors, in this order; the first names the rank found
/// and the last the count found.
/// So is a side that an image cannot have: a height or a width beyond 32
/// bits, or a row beyond the machine's sizes. Any other array gives the image
/// of its height, width and channel count whose samples are the intensities
/// of its elements, in their order.
pub fn value_to_image(value: &Value) -> (r: Result<image::DynamicImage, String>)
    ensures
        image_result_is(r, image_of(*value)),
{
    let rank = value.rank();
    if rank != 2 && rank != 3 {
        let message = String::from_str(
            "Image must be a rank 2 or 3 numeric array, but it is rank ",
        ).concat(decimal_string(rank).as_str());
        return Err(message);
    }
    let levels: Vec<u8> = match value {
        Value::Num(nums) => {
            let items = nums.data();
            let mut out: Vec<u8> = Vec::new();
            let mut i: usize = 0;
            while i < items.len()
                invariant
                    i <= items.len(),
                    out@ == items@.take(i as int).map_values(|n: Num| n.level),
                decreases items.len() - i,
            {
                out.push(items[i].level);
                i = i + 1;
                assert(out@ =~= items@.take(i as int).map_values(|n: Num| n.level));
            }
            assert(items@.take(items@.len() as int) == items@);
            out
        },
        Value::Byte(bytes) => {
            let items = bytes.data();
            let mut out: Vec<u8> = Vec::new();
            let mut i: usize = 0;
            while i < items.len()
                invariant
                    i <= items.len(),
                    out@ == items@.take(i as int).map_values(|b: Byte| byte_level(b)),
                decreases items.len() - i,
            {
                let level: u8 = if items[i].or(0) == 0 {
                    0
                } else {
                    255
                };
                out.push(level);
                i = i + 1;
                assert(out@ =~= items@.take(i as int).map_values(|b: Byte| byte_level(b)));
            }
            assert(items@.take(items@.len() as int) == items@);
            out
        },
        _ => {
            return Err(String::from_str("Image must be a numeric array"));
        },
    };
    let shape: &Vec<usize> = match value {
        Value::Num(nums) => nums.shape(),
        Value::Byte(bytes) => bytes.shape(),
        _ => {
            return Err(String::from_str("Image must be a numeric array"));
        },
    };
    let height: usize = shape[0];
    let width: usize = shape[1];
    let channels: usize = if rank == 2 {
        1
    } else {
        shape[2]
    };
    if channels < 1 || channels > 4 {
        let message = String::from_str(
            "For a color image, the last dimension of the image array must be between 1 and 4 but it is ",
        ).concat(decimal_string(channels).as_str());
        return Err(message);
    }
    if height > u32::MAX as usize || width > u32::MAX as usize {
        return Err(String::from_str("Failed to create image"));
    }
    proof {
        lemma_size_written_out(shape@);
        assert(levels@.len() == height * width * channels);
        assert(channels * width * height == height * width * channels) by (nonlinear_arith);
        assert(levels@.take(levels@.len() as int) == levels@);
        if height >= 1 {
            assert(channels * width <= channels * width * height) by (nonlinear_arith)
                requires
                    height >= 1,
                    channels >= 0,
                    width >= 0,
            ;
        }
    }
    let made = if channels == 1 {
        gray_image(width as u32, height as u32, levels)
    } else if channels == 2 {
        gray_alpha_image(width as u32, height as u32, levels)
    } else if channels == 3 {
        rgb_image(width as u32, height as u32, levels)
    } else {
        rgba_image(width as u32, height as u32, levels)
    };
    match made {
        Some(img) => Ok(img),
        None => Err(String::from_str("Failed to create image")),
    }
}

/// What writing a value as an image file gives: the bytes of the file, or
/// the error message.
pub open spec fn image_bytes_of(value: Value, format: ImageFormat) -> Result<Seq<u8>, Seq<char>> {
    match image_of(value) {
        Err(message) => Err(message),
        Ok((layout, samples)) => {
            if !can_encode(format, layout) {
                Err("Failed to write image: the image is too large"@)
            } else {
                match image_file(layout, samples, format) {
                    Ok(bytes) => Ok(bytes),
                    Err(message) => Err("Failed to write image: "@ + message),
                }
            }
        },
    }
}

/// Whether an 8-bit image of the given sides and channels is within the
/// sizes that the encoder of a format computes with.
fn fits_encoder(format: ImageFormat, height: u32, width: u32, channels: u8) -> (fits: bool)
    requires
        1 <= channels <= 4,
    ensures
        fits == can_encode(format, layout_of(height as nat, width as nat, channels as nat, 1)),
{
    let limit: u64 = usize::MAX as u64;
    assert((height as u64) * (width as u64) <= 0xffff_ffff * 0xffff_ffff) by (nonlinear_arith)
        requires
            height <= 0xffff_ffff,
            width <= 0xffff_ffff,
    ;
    let pixels: u64 = (height as u64) * (width as u64);
    assert(4 * height * width == 4 * pixels) by (nonlinear_arith)
        requires
            pixels == height * width,
    ;
    assert(channels * width * height == channels * pixels) by (nonlinear_arith)
        requires
            pixels == height * width,
    ;
    if (width as u64) * 4 + 1 > limit || pixels > limit / 4 {
        return false;
    }
    match format {
        ImageFormat::Bmp => {
            if width > 0x3fff_ffff || height > 0x5555_5555 || pixels > 0xffff_ffff {
                return false;
            }
            assert((channels as u64) * pixels <= 4 * 0xffff_ffff) by (nonlinear_arith)
                requires
                    channels <= 4,
                    pixels <= 0xffff_ffff,
            ;
            (channels as u64) * pixels <= 0xffff_ffff
        },
        _ => true,
    }
}

/// Encodes an array of channel intensities as an image file.
///
/// The array is made an image as `value_to_image` does, with the same
/// errors. The image is handed to the encoder of the format, unless it is
/// too large for that encoder, as `can_encode` says. An error of the encoder
/// is returned as its message after "Failed to write image: ".
pub fn value_to_image_bytes(value: &Value, format: ImageFormat) -> (r: Result<Vec<u8>, String>)
    ensures
        bytes_result_is(r, image_bytes_of(*value, format)),
{
    let img = match value_to_image(value) {
        Ok(img) => img,
        Err(message) => {
            return Err(message);
        },
    };
    if !fits_encoder(format, image_height(&img), image_width(&img), image_channels(&img)) {
        return Err(String::from_str("Failed to write image: the image is too large"));
    }
    match write_image(&img, format) {
        Ok(bytes) => Ok(bytes),
        Err(message) => Err(String::from_str("Failed to write image: ").concat(message.as_str())),
    }
}

/// What follows the last full stop of a path, or the whole path if it has
/// none.
pub open spec fn extension(path: Seq<char>) -> Seq<char>
    decreases path.len(),
{
    if path.len() == 0 || path.last() == '.' {
        Seq::empty()
    } else {
        extension(path.drop_last()).push(path.last())
    }
}

/// The file format that a path asks for by its extension: JPEG at quality
/// 100 for `jpg` and `jpeg`, BMP, GIF and ICO for their own, and PNG for
/// `png` and for anything else.
pub open spec fn format_of_path(path: Seq<char>) -> ImageFormat {
    let ext = extension(path);
    if ext == "jpg"@ || ext == "jpeg"@ {
        ImageFormat::Jpeg(100)
    } else if ext == "bmp"@ {
        ImageFormat::Bmp
    } else if ext == "gif"@ {
        ImageFormat::Gif
    } else if ext == "ico"@ {
        ImageFormat::Ico
    } else {
        ImageFormat::Png
    }
}

/// The extension of a path is what follows a full stop that no other
/// follows.
proof fn lemma_extension_after(path: Seq<char>, dot: int)
    requires
        0 <= dot < path.len(),
        path[dot] == '.',
        forall|i: int| dot < i < path.len() ==> path[i] != '.',
    ensures
        extension(path) == path.subrange(dot + 1, path.len() as int),
    decreases path.len(),
{
    if dot == path.len() - 1 {
        assert(path.subrange(dot + 1, path.len() as int) =~= Seq::<char>::empty());
    } else {
        lemma_extension_after(path.drop_last(), dot);
        assert(path.drop_last().subrange(dot + 1, path.len() - 1).push(path.last())
            =~= path.subrange(dot + 1, path.len() as int));
    }
}

/// The extension of a path without a full stop is the path.
proof fn lemma_extension_whole(path: Seq<char>)
    requires
        forall|i: int| 0 <= i < path.len() ==> path[i] != '.',
    ensures
        extension(path) == path,
    decreases path.len(),
{
    if path.len() > 0 {
        lemma_extension_whole(path.drop_last());
        assert(path.drop_last().push(path.last()) =~= path);
    }
}

/// The file format that a path asks for by its extension.
pub fn format_for_path(path: &str) -> (format: ImageFormat)
    ensures
        format == format_of_path(path@),
{
    let chars = chars_of(path);
    let mut start: usize = chars.len();
    while start > 0 && chars[start - 1] != '.'
        invariant
            start <= chars.len(),
            forall|i: int| start <= i < chars.len() ==> chars@[i] != '.',
        decreases start,
    {
        start = start - 1;
    }
    let mut ext_chars: Vec<char> = Vec::new();
    let mut i: usize = start;
    while i < chars.len()
        invariant
            start <= i <= chars.len(),
            ext_chars@ == chars@.subrange(start as int, i as int),
        decreases chars.len() - i,
    {
        ext_chars.push(chars[i]);
        i = i + 1;
        assert(ext_chars@ =~= chars@.subrange(start as int, i as int));
    }
    proof {
        if start > 0 {
            lemma_extension_after(chars@, start - 1);
        } else {
            lemma_extension_whole(chars@);
            assert(chars@.subrange(0, chars@.len() as int) =~= chars@);
        }
    }
    let ext = string_from_chars(&ext_chars);
    if same_text(ext.as_str(), "jpg") || same_text(ext.as_str(), "jpeg") {
        ImageFormat::Jpeg(100)
    } else if same_text(ext.as_str(), "bmp") {
        ImageFormat::Bmp
    } else if same_text(ext.as_str(), "gif") {
        ImageFormat::Gif
    } else if same_text(ext.as_str(), "ico") {
        ImageFormat::Ico
    } else {
        ImageFormat::Png
    }
}

/// What reading an image file gives: the shape `[height, width, 4]` and the
/// elements of the array, which are the samples of the image as 8-bit RGBA,
/// none of them unset; or the error message: of the decoder, for an image
/// with floating-point samples, or for one with more pixels than the machine
/// can hold as RGBA.
pub open spec fn array_of_image_bytes(bytes: Seq<u8>) -> Result<(Seq<usize>, Seq<Byte>), Seq<char>> {
    match image_read(bytes) {
        Err(message) => Err("Failed to read image: "@ + message),
        Ok((layout, samples)) => if layout[3] == 4 {
            Err("Failed to read image: floating-point samples are not supported"@)
        } else if 4 * layout[0] * layout[1] > usize::MAX {
            Err("Failed to read image: the image is too large"@)
        } else {
            Ok(
                (
                    seq![layout[0] as usize, layout[1] as usize, 4usize],
                    set_bytes(rgba_samples(layout, samples)),
                ),
            )
        },
    }
}

/// Whether a result holds the array of bytes, or the message, that is
/// expected of it.
pub open spec fn byte_array_result_is(
    r: Result<Value, String>,
    expected: Result<(Seq<usize>, Seq<Byte>), Seq<char>>,
) -> bool {
    match expected {
        Ok((dims, items)) => r matches Ok(Value::Byte(a)) && a.dims() == dims && a.items() == items
            && a.wf(),
        Err(message) => r matches Err(e) && e@ == message,
    }
}

/// Decodes the bytes of an image file, in any format that the decoder knows,
/// into an array of bytes of shape `[height, width, 4]`: the image as 8-bit
/// RGBA. An error of the decoder is returned as its message after "Failed to
/// read image: ". An image with floating-point samples is an error, and so
/// is one with more pixels than the machine can hold as RGBA.
pub fn image_bytes_to_value(bytes: &Vec<u8>) -> (r: Result<Value, String>)
    ensures
        byte_array_result_is(r, array_of_image_bytes(bytes@)),
{
    let img = match read_image(bytes) {
        Ok(img) => img,
        Err(message) => {
            return Err(String::from_str("Failed to read image: ").concat(message.as_str()));
        },
    };
    let channels = image_channels(&img);
    let pixel_bytes = image_pixel_bytes(&img);
    proof {
        let c = image_layout(img)[2];
        let d = image_layout(img)[3];
        assert((c * d == 4 * c) == (d == 4)) by (nonlinear_arith)
            requires
                c >= 1,
        ;
    }
    if pixel_bytes == 4 * channels {
        return Err(
            String::from_str("Failed to read image: floating-point samples are not supported"),
        );
    }
    let high = image_height(&img);
    let wide = image_width(&img);
    assert((high as u64) * (wide as u64) <= 0xffff_ffff * 0xffff_ffff) by (nonlinear_arith)
        requires
            high <= 0xffff_ffff,
            wide <= 0xffff_ffff,
    ;
    assert(4 * high * wide == 4 * (high * wide)) by (nonlinear_arith);
    if (high as u64) * (wide as u64) > (usize::MAX as u64) / 4 {
        return Err(String::from_str("Failed to read image: the image is too large"));
    }
    let height = high as usize;
    let width = wide as usize;
    let mut raw = into_rgba(img);
    let ghost whole = raw@;
    let available: usize = raw.len();
    proof {
        assert(4 * height * width <= available);
        assert(height * width <= 4 * height * width) by (nonlinear_arith)
            requires
                height >= 0,
                width >= 0,
        ;
        assert(4 * height * width == height * width * 4) by (nonlinear_arith);
    }
    let pixels: usize = height * width;
    raw.truncate(pixels * 4);
    let mut shape: Vec<usize> = Vec::new();
    shape.push(height);
    shape.push(width);
    shape.push(4);
    proof {
        lemma_size_written_out(shape@);
        assert(raw@ == whole.take((4 * height * width) as int));
        assert(shape@ =~= seq![height, width, 4usize]);
    }
    let items = bytes_to_items(&raw);
    match Array::new(shape, items) {
        Some(a) => Ok(Value::Byte(a)),
        None => Err(String::from_str("Failed to read image")),
    }
}

/// A size of the terminal as a side of 32 bits, cut to its low 32 bits.
pub open spec fn side_of(cells: usize) -> u32 {
    (cells as int % 0x1_0000_0000) as u32
}

/// The width and the height that an image is fitted to on a terminal of the
/// given columns and rows, if the terminal has a size: the longer side is
/// fitted and the other follows. An image that is wider than high takes the
/// terminal's columns. Any other takes the terminal's rows but one.
pub open spec fn fit_of(width: u32, height: u32, terminal: Option<(usize, usize)>) -> (
    Option<u32>,
    Option<u32>,
) {
    if width > height {
        (
            match terminal {
                Some((columns, _)) => Some(side_of(columns)),
                None => None,
            },
            None,
        )
    } else {
        (
            None,
            match terminal {
                Some((_, rows)) => Some(
                    side_of(
                        if rows >= 1 {
                            (rows - 1) as usize
                        } else {
                            0
                        },
                    ),
                ),
                None => None,
            },
        )
    }
}

fn side(cells: usize) -> (s: u32)
    ensures
        s == side_of(cells),
{
    ((cells as u64) % 0x1_0000_0000) as u32
}

/// The width and the height that an image of the given sides is fitted to
/// on a terminal of the given columns and rows.
pub fn display_fit(width: u32, height: u32, terminal: Option<(usize, usize)>) -> (fit: (
    Option<u32>,
    Option<u32>,
))
    ensures
        fit == fit_of(width, height, terminal),
{
    if width > height {
        match terminal {
            Some((columns, _)) => (Some(side(columns)), None),
            None => (None, None),
        }
    } else {
        match terminal {
            Some((_, rows)) => {
                let below: usize = if rows >= 1 {
                    rows - 1
                } else {
                    0
                };
                (None, Some(side(below)))
            },
            None => (None, None),
        }
    }
}

/// An array of rank 3 whose last dimension is from 1 to 4, and whose sides
/// an image can have, becomes an image of exactly that height, width and
/// number of channels, with one sample for each element. With any other last
/// dimension it is an error that names the dimension found.
pub proof fn lemma_channels_decide(value: Value)
    requires
        value.wf(),
        levels_of(value) is Some,
        value.rank_of() == 3,
        dims_of(value)[0] <= u32::MAX,
        dims_of(value)[1] <= u32::MAX,
        4 * dims_of(value)[1] <= usize::MAX,
    ensures
        1 <= dims_of(value)[2] <= 4 ==> image_of(value) == Ok::<
            (Seq<nat>, Seq<u8>),
            Seq<char>,
        >(
            (
                layout_of(
                    dims_of(value)[0] as nat,
                    dims_of(value)[1] as nat,
                    dims_of(value)[2] as nat,
                    1,
                ),
                levels_of(value)->0,
            ),
        ),
        1 <= dims_of(value)[2] <= 4 ==> levels_of(value)->0.len() == dims_of(value)[0] * dims_of(
            value,
        )[1] * dims_of(value)[2],
        !(1 <= dims_of(value)[2] <= 4) ==> image_of(value) == Err::<
            (Seq<nat>, Seq<u8>),
            Seq<char>,
        >(
            "For a color image, the last dimension of the image array must be between 1 and 4 but it is "@
                + decimal(dims_of(value)[2] as nat),
        ),
{
    lemma_size_written_out(dims_of(value));
    let width = dims_of(value)[1] as nat;
    let channels = dims_of(value)[2] as nat;
    if 1 <= channels <= 4 {
        assert(channels * width <= 4 * width) by (nonlinear_arith)
            requires
                channels <= 4,
                width >= 0,
        ;
    }
}

/// An array whose rank is neither 2 nor 3 is not an image, whatever it
/// holds: the error names the rank found.
pub proof fn lemma_rank_decides(value: Value)
    requires
        value.rank_of() != 2,
        value.rank_of() != 3,
    ensures
        image_of(value) == Err::<(Seq<nat>, Seq<u8>), Seq<char>>(
            "Image must be a rank 2 or 3 numeric array, but it is rank "@ + decimal(
                value.rank_of(),
            ),
        ),
{
}

} // verus!
