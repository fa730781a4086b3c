//! From the bytes of a picture to the bytes of its icon.

use crate::buffer::PixelBuffer;
use crate::fit::{content_fits, is_fitted, resize_to_square, FitError};
use crate::icon::{
    convert, icon_file, icon_sized, is_icon_container, lemma_container_reads_back, read_directory,
    ConvertError, IconEntry, DIRECTORY_LENGTH, MAX_ICON_SIZE, TRUE_COLOR_BITS,
};
use crate::path::InputKind;
use crate::pixel::{ColorLayout, ImageModel};
use crate::quantize::{
    quantized, reduce_colors, trained_network, QuantizeError, MAX_COLORS, SAMPLE_FACTOR,
};
use crate::svg::{canvas_fits, rasterize, RenderError, ICON_SIZE};
use image::ImageError;
use vstd::prelude::*;

verus! {

/// The error type of the `image` crate.
#[verifier::external_type_specification]
#[verifier::external_body]
pub struct ExImageError(ImageError);

/// The number of colours that an icon is reduced to.
pub const ICON_COLORS: usize = 16;

/// Why no icon was made.
#[derive(Clone, Copy, Debug, PartialEq, Eq, Structural)]
pub enum IconError {
    /// The input is no picture in a format that is understood.
    Decode,
    /// The input is vector markup that could not be rasterized.
    Render(RenderError),
    /// The picture could not be fitted into the canvas.
    Fit(FitError),
    /// The picture could not be quantized.
    Quantize(QuantizeError),
    /// The picture could not be packaged.
    Encode(ConvertError),
}

/// `image::load_from_memory`, and of the picture that it decodes, turned
/// into four 8-bit channels by `DynamicImage::into_rgba8`, the width, the
/// height and the raw bytes.
///
/// Trusted: the pixels are four bytes for each of the `width * height`
/// pixels. Nothing is claimed of which inputs decode, nor of the colours:
/// which decoders answer is a matter of the process, not of the bytes.
#[verifier::external_body]
fn load_rgba(input: &[u8]) -> (loaded: Result<(u32, u32, Vec<u8>), ImageError>)
    ensures
        loaded matches Ok((width, height, data)) ==> data@.len() == width * height * 4,
{
    let picture = image::load_from_memory(input)?.into_rgba8();
    Ok((picture.width(), picture.height(), picture.into_raw()))
}

/// What `decode_image` returns once the decoder has answered: the picture
/// it decoded, or `Decode` in place of its error or of bytes that do not
/// match the dimensions.
pub fn decoded_picture(loaded: Result<(u32, u32, Vec<u8>), ImageError>) -> (picture: Result<
    PixelBuffer,
    IconError,
>)
    ensures
        match loaded {
            Ok((width, height, data)) if data@.len() == width * height * 4 => {
                &&& picture matches Ok(image)
                &&& image@ == (ImageModel {
                    width,
                    height,
                    layout: ColorLayout::Rgba,
                    bytes: data@,
                })
                &&& image@.well_formed()
            },
            _ => picture matches Err(error) && error == IconError::Decode,
        },
{
    match loaded {
        Ok((width, height, data)) => match PixelBuffer::from_raw(
            width,
            height,
            ColorLayout::Rgba,
            data,
        ) {
            Some(image) => Ok(image),
            None => Err(IconError::Decode),
        },
        Err(_) => Err(IconError::Decode),
    }
}

/// Decodes an encoded raster picture into four 8-bit channels per pixel.
/// What the decoder makes of the input decides, as `decoded_picture` says.
pub fn decode_image(input: &[u8]) -> (picture: Result<PixelBuffer, IconError>)
    ensures
        match picture {
            Ok(image) => image@.layout == ColorLayout::Rgba && image@.well_formed(),
            Err(error) => error == IconError::Decode,
        },
{
    decoded_picture(load_rgba(input))
}

/// What `load_picture` returns for vector markup once it has been
/// rasterized: the picture, or the failure as a failure of the whole.
pub fn rendered_or_failure(rendered: Result<PixelBuffer, RenderError>) -> (picture: Result<
    PixelBuffer,
    IconError,
>)
    ensures
        match rendered {
            Ok(image) => picture matches Ok(same) && same@ == image@,
            Err(error) => picture matches Err(failure) && failure == IconError::Render(error),
        },
{
    match rendered {
        Ok(image) => Ok(image),
        Err(error) => Err(IconError::Render(error)),
    }
}

/// Reads the bytes of an input as `kind` says: vector markup is rasterized
/// onto a canvas of `target_size` x `target_size` pixels, a raster picture
/// is decoded.
pub fn load_picture(input: &[u8], kind: InputKind, target_size: u32) -> (picture: Result<
    PixelBuffer,
    IconError,
>)
    ensures
        kind == InputKind::Raster ==> match picture {
            Ok(image) => image@.layout == ColorLayout::Rgba && image@.well_formed(),
            Err(error) => error == IconError::Decode,
        },
        kind == InputKind::Vector ==> match picture {
            Ok(image) => {
                &&& canvas_fits(target_size, target_size)
                &&& image@.width == target_size
                &&& image@.height == target_size
                &&& image@.layout == ColorLayout::Rgba
                &&& image@.well_formed()
            },
            Err(IconError::Render(RenderError::EmptyCanvas)) => target_size == 0,
            Err(IconError::Render(RenderError::Canvas)) => target_size > 0 && !canvas_fits(
                target_size,
                target_size,
            ),
            Err(IconError::Render(RenderError::Parse)) => canvas_fits(target_size, target_size),
            Err(_) => false,
        },
{
    match kind {
        InputKind::Vector => rendered_or_failure(rasterize(input, target_size)),
        InputKind::Raster => decode_image(input),
    }
}

/// What an icon is to be like.
#[derive(Clone, Copy, Debug, PartialEq, Eq, Structural)]
pub struct IconConfig {
    /// The edge of the square canvas, in pixels.
    pub output_size: u32,
    /// The number of colours that the picture is reduced to.
    pub max_colors: usize,
}

impl IconConfig {
    /// Whether an icon can be made to this configuration: an entry of the
    /// container can declare the canvas, and a palette can have the number
    /// of colours.
    pub open spec fn valid(self) -> bool {
        icon_sized(self.output_size, self.output_size) && 1 <= self.max_colors <= MAX_COLORS
    }
}

impl Default for IconConfig {
    /// A canvas of edge `ICON_SIZE` and `ICON_COLORS` colours.
    fn default() -> (config: Self)
        ensures
            config == (IconConfig { output_size: ICON_SIZE, max_colors: ICON_COLORS }),
            config.valid(),
    {
        IconConfig { output_size: ICON_SIZE, max_colors: ICON_COLORS }
    }
}

/// The fitted picture `fitted` reduced to `max_colors` colours: the palette
/// is trained on the fitted picture itself.
pub open spec fn reduced_of_fitted(fitted: ImageModel, max_colors: usize) -> ImageModel {
    quantized(fitted, trained_network(SAMPLE_FACTOR, max_colors, fitted.rgba_bytes()))
}

/// The container of the fitted picture `fitted` once it is reduced to
/// `max_colors` colours.
pub open spec fn icon_of_fitted(fitted: ImageModel, max_colors: usize) -> Seq<u8> {
    icon_file(reduced_of_fitted(fitted, max_colors))
}

/// Makes the icon of a picture: the picture is fitted into a square of
/// edge `config.output_size`, the fitted picture is reduced to
/// `config.max_colors` colours, and the reduced picture is packaged. The
/// picture in the container shows no more colours than that.
///
/// The configuration is looked at first, the canvas before the palette;
/// then the picture.
pub fn make_icon(source: &PixelBuffer, config: &IconConfig) -> (icon: Result<Vec<u8>, IconError>)
    ensures
        match icon {
            Ok(bytes) => {
                &&& config.valid()
                &&& source@.width > 0
                &&& source@.height > 0
                &&& content_fits(source@.width, source@.height, config.output_size)
                &&& exists|fitted: ImageModel|
                    {
                        &&& #[trigger] is_fitted(source@, config.output_size, fitted)
                        &&& bytes@ == icon_of_fitted(fitted, config.max_colors)
                        &&& reduced_of_fitted(fitted, config.max_colors).distinct_colors().finite()
                        &&& reduced_of_fitted(fitted, config.max_colors).distinct_colors().len()
                            <= config.max_colors
                    }
                &&& is_icon_container(bytes@, config.output_size, config.output_size)
                &&& read_directory(bytes@) == Some(
                    seq![
                        IconEntry {
                            width: config.output_size as int,
                            height: config.output_size as int,
                            bits_per_pixel: TRUE_COLOR_BITS as int,
                            data_length: (bytes@.len() - DIRECTORY_LENGTH) % 0x1_0000_0000,
                            data_offset: DIRECTORY_LENGTH as int,
                        },
                    ],
                )
            },
            Err(IconError::Encode(ConvertError::InvalidDimensions)) => !icon_sized(
                config.output_size,
                config.output_size,
            ),
            Err(IconError::Quantize(QuantizeError::InvalidColorCount)) => {
                &&& icon_sized(config.output_size, config.output_size)
                &&& !config.valid()
            },
            Err(IconError::Fit(FitError::EmptySource)) => {
                &&& config.valid()
                &&& (source@.width == 0 || source@.height == 0)
            },
            Err(IconError::Fit(FitError::TooLarge)) => {
                &&& config.valid()
                &&& source@.width > 0
                &&& source@.height > 0
                &&& !content_fits(source@.width, source@.height, config.output_size)
            },
            Err(_) => false,
        },
{
    if config.output_size < 1 || config.output_size > MAX_ICON_SIZE {
        return Err(IconError::Encode(ConvertError::InvalidDimensions));
    }
    if config.max_colors < 1 || config.max_colors > MAX_COLORS {
        return Err(IconError::Quantize(QuantizeError::InvalidColorCount));
    }
    let fitted = match resize_to_square(source, config.output_size) {
        Ok(canvas) => canvas,
        Err(error) => {
            return Err(IconError::Fit(error));
        },
    };
    let reduced = match reduce_colors(&fitted, config.max_colors) {
        Ok(image) => image,
        Err(error) => {
            return Err(IconError::Quantize(error));
        },
    };
    match convert(reduced) {
        Ok(bytes) => {
            proof {
                lemma_container_reads_back(bytes@, config.output_size, config.output_size);
                assert(is_fitted(source@, config.output_size, fitted@) && bytes@ == icon_of_fitted(
                    fitted@,
                    config.max_colors,
                ) && reduced_of_fitted(fitted@, config.max_colors).distinct_colors().finite()
                    && reduced_of_fitted(fitted@, config.max_colors).distinct_colors().len()
                    <= config.max_colors);
            }
            Ok(bytes)
        },
        Err(error) => Err(IconError::Encode(error)),
    }
}

} // verus!
