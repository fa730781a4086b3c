//! Fitting a picture into a square canvas: the picture is scaled without
//! distortion, centred, and the rest of the canvas takes the colour of the
//! picture's top-left pixel.

use crate::buffer::PixelBuffer;
use crate::canvas::{covered, create_square_image, get_top_left_color, paste_resized_image};
use crate::geometry::{
    calculate_size, centered_offset, fitted_size, lemma_fitted_size_of_unscaled, longest_side,
};
use crate::pixel::{lemma_as_rgba_keeps_colors, ColorLayout, ImageModel, Rgba};
use vstd::prelude::*;

verus! {

/// Why a picture could not be fitted.
#[derive(Clone, Copy, Debug, PartialEq, Eq, Structural)]
pub enum FitError {
    /// The source has no pixels, so there is nothing to sample from.
    EmptySource,
    /// A buffer needed for resampling would be longer than an allocation
    /// can be.
    TooLarge,
}

/// Whether the buffers that resampling a `width` x `height` picture to
/// `new_width` x `new_height` allocates are no longer than an allocation
/// can be: the source with four channels, the picture between the two
/// passes, which has the old width, the new height and four 32-bit samples
/// per pixel, and the result.
pub open spec fn resample_fits(width: u32, height: u32, new_width: u32, new_height: u32) -> bool {
    &&& width * height * 4 <= isize::MAX
    &&& width * new_height * 16 <= isize::MAX
    &&& new_width * new_height * 4 <= isize::MAX
}

/// `image::imageops::resize` with `FilterType::Lanczos3`, on an
/// `image::RgbaImage` that `ImageBuffer::from_fn` fills with the pixels of
/// `input`; the result as the raw bytes of the image that comes back.
///
/// Trusted: the bytes are those of a `new_width` x `new_height` picture of
/// four channels, and where the size does not change they are the pixels
/// of `input`, which `resize` then copies. Nothing else is claimed of the
/// colours, which come out of floating-point resampling. Left out are
/// pictures without pixels and those for which a buffer would be longer
/// than an allocation can be.
#[verifier::external_body]
fn lanczos3(input: &PixelBuffer, new_width: u32, new_height: u32) -> (resized: Vec<u8>)
    requires
        input@.width > 0,
        input@.height > 0,
        new_width > 0,
        new_height > 0,
        resample_fits(input@.width, input@.height, new_width, new_height),
    ensures
        resized@.len() == new_width * new_height * 4,
        new_width == input@.width && new_height == input@.height ==> resized@
            == input@.rgba_bytes(),
{
    let source = image::RgbaImage::from_fn(
        input.width(),
        input.height(),
        |x, y| {
            let color = input.get_pixel(x, y);
            image::Rgba([color.r, color.g, color.b, color.a])
        },
    );
    image::imageops::resize(&source, new_width, new_height, image::imageops::FilterType::Lanczos3)
        .into_raw()
}

/// Decides whether `resample_fits`.
fn check_resample_fits(width: u32, height: u32, new_width: u32, new_height: u32) -> (fits: bool)
    ensures
        fits == resample_fits(width, height, new_width, new_height),
{
    let limit: u128 = isize::MAX as u128;
    let source: u128 = cells(width, height) * 4;
    let between: u128 = cells(width, new_height) * 16;
    let after: u128 = cells(new_width, new_height) * 4;
    source <= limit && between <= limit && after <= limit
}

/// The number of pixels of a `width` x `height` picture.
fn cells(width: u32, height: u32) -> (count: u128)
    ensures
        count == width * height,
        count <= 0xffff_ffff * 0xffff_ffff,
{
    proof {
        assert(0 <= width * height <= 0xffff_ffff * 0xffff_ffff) by (nonlinear_arith)
            requires
                0 <= width <= 0xffff_ffff,
                0 <= height <= 0xffff_ffff,
        ;
    }
    width as u128 * height as u128
}

/// Resamples a picture to `new_width` x `new_height` with a Lanczos filter
/// of window 3. The result has four channels.
///
/// A target without pixels yields an empty picture, whatever the source
/// holds; otherwise the source must have pixels. Where the size does not
/// change, neither do the pixels.
pub fn resize_image(input_image: &PixelBuffer, new_width: u32, new_height: u32) -> (resized: Result<
    PixelBuffer,
    FitError,
>)
    ensures
        match resized {
            Ok(image) => {
                &&& image@.width == new_width
                &&& image@.height == new_height
                &&& image@.layout == ColorLayout::Rgba
                &&& image@.well_formed()
                &&& new_width == input_image@.width && new_height == input_image@.height
                    ==> image@ == input_image@.as_rgba()
                &&& new_width == 0 || new_height == 0 || {
                    &&& input_image@.width > 0
                    &&& input_image@.height > 0
                    &&& resample_fits(
                        input_image@.width,
                        input_image@.height,
                        new_width,
                        new_height,
                    )
                }
            },
            Err(FitError::EmptySource) => {
                &&& new_width > 0
                &&& new_height > 0
                &&& (input_image@.width == 0 || input_image@.height == 0)
            },
            Err(FitError::TooLarge) => {
                &&& new_width > 0
                &&& new_height > 0
                &&& input_image@.width > 0
                &&& input_image@.height > 0
                &&& !resample_fits(
                    input_image@.width,
                    input_image@.height,
                    new_width,
                    new_height,
                )
            },
        },
{
    let (width, height) = input_image.dimensions();
    if new_width == 0 || new_height == 0 {
        let clear = Rgba { r: 0, g: 0, b: 0, a: 0 };
        let empty = PixelBuffer::from_pixel(new_width, new_height, ColorLayout::Rgba, clear);
        proof {
            assert(new_width * new_height * 4 == 0) by (nonlinear_arith)
                requires
                    new_width == 0 || new_height == 0,
            ;
            if new_width == width && new_height == height {
                assert(empty@.bytes =~= input_image@.rgba_bytes());
            }
        }
        return Ok(empty);
    }
    if width == 0 || height == 0 {
        return Err(FitError::EmptySource);
    }
    if !check_resample_fits(width, height, new_width, new_height) {
        return Err(FitError::TooLarge);
    }
    let data = lanczos3(input_image, new_width, new_height);
    let image = PixelBuffer::from_raw(new_width, new_height, ColorLayout::Rgba, data);
    Ok(image.unwrap())
}

/// The colour of cell `(x, y)` of a canvas of edge `output_size` that shows
/// `content` in its centre and `background` elsewhere.
pub open spec fn centered_color(
    content: ImageModel,
    output_size: u32,
    background: Rgba,
    x: int,
    y: int,
) -> Rgba {
    let paste_x = centered_offset(output_size, content.width);
    let paste_y = centered_offset(output_size, content.height);
    if covered(content, paste_x, paste_y, x, y) {
        content.color_at(x - paste_x, y - paste_y).opaque()
    } else {
        background.opaque()
    }
}

/// Puts `resized` in the centre of a square canvas of edge `output_size`
/// whose other pixels have the colour `background`. Alpha is dropped.
pub fn center_on_canvas(resized: &PixelBuffer, output_size: u32, background: Rgba) -> (canvas:
    PixelBuffer)
    requires
        resized@.width <= output_size,
        resized@.height <= output_size,
    ensures
        canvas@.width == output_size,
        canvas@.height == output_size,
        canvas@.layout == ColorLayout::Rgb,
        canvas@.well_formed(),
        forall|x: int, y: int|
            canvas@.contains(x, y) ==> #[trigger] canvas@.color_at(x, y) == centered_color(
                resized@,
                output_size,
                background,
                x,
                y,
            ),
{
    let (width, height) = resized.dimensions();
    let mut square_image = create_square_image(output_size, background);
    let paste_x: u32 = (output_size - width) / 2;
    let paste_y: u32 = (output_size - height) / 2;
    let ghost blank = square_image@;
    paste_resized_image(&mut square_image, resized, paste_x, paste_y);
    proof {
        assert forall|x: int, y: int|
            square_image@.contains(x, y) implies #[trigger] square_image@.color_at(x, y)
            == centered_color(resized@, output_size, background, x, y) by {
            assert(blank.contains(x, y));
            assert(blank.color_at(x, y) == blank.stored(background));
        }
    }
    square_image
}

/// Whether the cell `(x, y)` of the canvas of edge `output_size` lies in
/// the centred box that holds the fitted content of a `width` x `height`
/// picture.
pub open spec fn in_content_box(width: u32, height: u32, output_size: u32, x: int, y: int) -> bool {
    let (new_width, new_height) = fitted_size(width, height, output_size);
    let paste_x = (output_size - new_width) / 2;
    let paste_y = (output_size - new_height) / 2;
    paste_x <= x < paste_x + new_width && paste_y <= y < paste_y + new_height
}

/// Whether the fitted content of a `width` x `height` picture can be
/// resampled for a canvas of edge `output_size`: there is no content, or
/// the buffers for it can be allocated.
pub open spec fn content_fits(width: u32, height: u32, output_size: u32) -> bool {
    let (new_width, new_height) = fitted_size(width, height, output_size);
    new_width > 0 && new_height > 0 ==> resample_fits(
        width,
        height,
        new_width as u32,
        new_height as u32,
    )
}

/// Whether `canvas` shows `source` fitted into a square of edge
/// `output_size`: it is a square of that edge without alpha; every pixel
/// outside the centred box of the content has the colour of the source's
/// top-left pixel; and a source whose longest side is the edge of the canvas
/// is shown as it is.
pub open spec fn is_fitted(source: ImageModel, output_size: u32, canvas: ImageModel) -> bool {
    &&& canvas.width == output_size
    &&& canvas.height == output_size
    &&& canvas.layout == ColorLayout::Rgb
    &&& canvas.well_formed()
    &&& forall|x: int, y: int|
        canvas.contains(x, y) && !in_content_box(source.width, source.height, output_size, x, y)
            ==> #[trigger] canvas.color_at(x, y) == source.color_at(0, 0).opaque()
    &&& longest_side(source.width, source.height) == output_size ==> forall|x: int, y: int|
        canvas.contains(x, y) ==> #[trigger] canvas.color_at(x, y) == centered_color(
            source,
            output_size,
            source.color_at(0, 0),
            x,
            y,
        )
}

/// Fits a picture into a square canvas of edge `output_size`.
///
/// The content keeps its aspect ratio, is resampled with a Lanczos filter
/// and centred; every other pixel of the canvas has the colour of the
/// source's top-left pixel. The canvas has no alpha. A source whose
/// longest side is the edge of the canvas is not resampled: the canvas
/// shows its pixels as they are.
pub fn resize_to_square(input_image: &PixelBuffer, output_size: u32) -> (fitted: Result<
    PixelBuffer,
    FitError,
>)
    ensures
        match fitted {
            Ok(canvas) => {
                &&& input_image@.width > 0
                &&& input_image@.height > 0
                &&& content_fits(input_image@.width, input_image@.height, output_size)
                &&& is_fitted(input_image@, output_size, canvas@)
            },
            Err(FitError::EmptySource) => input_image@.width == 0 || input_image@.height == 0,
            Err(FitError::TooLarge) => {
                &&& input_image@.width > 0
                &&& input_image@.height > 0
                &&& !content_fits(input_image@.width, input_image@.height, output_size)
            },
        },
{
    let (input_width, input_height) = input_image.dimensions();
    if input_width == 0 || input_height == 0 {
        return Err(FitError::EmptySource);
    }
    let (new_width, new_height) = calculate_size(input_width, input_height, output_size);
    let top_left_color = get_top_left_color(input_image);
    match resize_image(input_image, new_width, new_height) {
        Ok(resized_image) => {
            let canvas = center_on_canvas(&resized_image, output_size, top_left_color);
            proof {
                if longest_side(input_width, input_height) == output_size {
                    lemma_fitted_size_of_unscaled(input_width, input_height);
                    assert forall|x: int, y: int| canvas@.contains(x, y) implies centered_color(
                        resized_image@,
                        output_size,
                        top_left_color,
                        x,
                        y,
                    ) == centered_color(input_image@, output_size, top_left_color, x, y) by {
                        let paste_x = centered_offset(output_size, input_width);
                        let paste_y = centered_offset(output_size, input_height);
                        if input_image@.contains(x - paste_x, y - paste_y) {
                            lemma_as_rgba_keeps_colors(input_image@, x - paste_x, y - paste_y);
                        }
                    }
                }
            }
            Ok(canvas)
        },
        Err(error) => Err(error),
    }
}

} // verus!
