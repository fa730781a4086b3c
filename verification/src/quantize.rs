//! Colour quantization: a palette of bounded size is trained on the
//! picture, and every pixel is replaced by the palette entry nearest to it.

use crate::buffer::PixelBuffer;
use crate::pixel::{ColorLayout, ImageModel, Rgba};
use color_quant::NeuQuant;
use vstd::prelude::*;
use vstd::set_lib::{lemma_int_range, lemma_len_subset, lemma_map_size_bound, set_int_range};
use vstd::slice::slice_subrange;

verus! {

/// The quantization network of the `color_quant` crate. Its neurons and its
/// colour map are out of the verifier's sight.
#[verifier::external_type_specification]
#[verifier::external_body]
pub struct ExNeuQuant(NeuQuant);

/// The network that `NeuQuant::new` returns for these arguments.
pub uninterp spec fn trained_network(sample_factor: i32, colors: usize, pixels: Seq<u8>)
    -> NeuQuant;

/// The colour map of a network as `color_map_rgb` lays it out: three bytes
/// per entry.
pub uninterp spec fn color_map(network: NeuQuant) -> Seq<u8>;

/// The index that `index_of` returns for a pixel of four bytes.
pub uninterp spec fn best_index(network: NeuQuant, pixel: Seq<u8>) -> usize;

/// `NeuQuant::new` trains a network of `colors` neurons on RGBA samples.
///
/// Trusted: the network is a function of the arguments, and its colour map
/// has one entry per neuron. Left out are the arguments on which training
/// divides by zero or computes with a wrapped number: a sample factor
/// outside the documented range, no colours, or so many that the learning
/// radius, eight times their number, is more than an `i32` holds.
pub assume_specification[ NeuQuant::new ](samplefac: i32, colors: usize, pixels: &[u8]) -> (network:
    NeuQuant)
    requires
        1 <= samplefac <= 30,
        1 <= colors <= 0x0fff_ffff,
    ensures
        network == trained_network(samplefac, colors, pixels@),
        color_map(network).len() == 3 * colors,
;

/// `NeuQuant::color_map_rgb` lists the red, green and blue bytes of every
/// entry of the colour map, in order.
pub assume_specification[ NeuQuant::color_map_rgb ](network: &NeuQuant) -> (map: Vec<u8>)
    ensures
        map@ == color_map(*network),
;

/// `NeuQuant::index_of` searches the colour map for the entry nearest to an
/// RGBA pixel. It panics unless the pixel has four bytes.
///
/// Trusted: the result depends on the network and the pixel alone, and it
/// is the index of an entry of the colour map.
pub assume_specification[ NeuQuant::index_of ](network: &NeuQuant, pixel: &[u8]) -> (index: usize)
    requires
        pixel@.len() == 4,
    ensures
        index == best_index(*network, pixel@),
        3 * index + 3 <= color_map(*network).len(),
;

/// The share of the samples that training skips is one in `SAMPLE_FACTOR`:
/// every pixel is sampled.
pub const SAMPLE_FACTOR: i32 = 1;

/// The largest palette that can be asked for.
pub const MAX_COLORS: usize = 0x0fff_ffff;

/// Why a picture could not be quantized.
#[derive(Clone, Copy, Debug, PartialEq, Eq, Structural)]
pub enum QuantizeError {
    /// The palette was to have no colours, or more than `MAX_COLORS`.
    InvalidColorCount,
}

/// Whether every index names an entry of a palette of three bytes per
/// entry.
pub open spec fn palette_holds(palette: Seq<u8>, indices: Seq<usize>) -> bool {
    forall|i: int| 0 <= i < indices.len() ==> 3 * #[trigger] indices[i] + 3 <= palette.len()
}

/// The bytes of the picture whose pixel `i` has the colour of the palette
/// entry `indices[i]`.
pub open spec fn remapped(palette: Seq<u8>, indices: Seq<usize>) -> Seq<u8> {
    Seq::new((3 * indices.len()) as nat, |i: int| palette[3 * indices[i / 3] + i % 3])
}

/// For each RGBA pixel of `pixels`, the index of the palette entry that the
/// network finds nearest to it.
pub open spec fn nearest_indices(network: NeuQuant, pixels: Seq<u8>) -> Seq<usize> {
    Seq::new(
        (pixels.len() / 4) as nat,
        |pixel: int| best_index(network, pixels.subrange(4 * pixel, 4 * pixel + 4)),
    )
}

/// The picture in which every pixel of `image` is replaced by the entry of
/// the network's colour map nearest to it. It has no alpha.
pub open spec fn quantized(image: ImageModel, network: NeuQuant) -> ImageModel {
    ImageModel {
        width: image.width,
        height: image.height,
        layout: ColorLayout::Rgb,
        bytes: remapped(color_map(network), nearest_indices(network, image.rgba_bytes())),
    }
}

/// A picture drawn from a palette shows no more colours than the palette
/// has entries.
pub proof fn lemma_palette_bounds_colors(image: ImageModel, palette: Seq<u8>, indices: Seq<usize>)
    requires
        image.layout == ColorLayout::Rgb,
        image.pixel_count() == indices.len(),
        image.bytes == remapped(palette, indices),
        palette_holds(palette, indices),
    ensures
        image.distinct_colors().finite(),
        image.distinct_colors().len() <= palette.len() / 3,
{
    let entries = (palette.len() / 3) as int;
    let entry = |j: int|
        Rgba { r: palette[3 * j], g: palette[3 * j + 1], b: palette[3 * j + 2], a: 255 };
    let positions = set_int_range(0, entries);
    let offered = positions.map(entry);
    lemma_int_range(0, entries);
    lemma_map_size_bound(positions, offered, entry);
    assert forall|color: Rgba| image.distinct_colors().contains(color) implies offered.contains(
        color,
    ) by {
        let index = choose|index: int|
            0 <= index < image.pixel_count() && image.pixel(index) == color;
        let j = indices[index] as int;
        assert(positions.contains(j));
        assert(image.bytes[3 * index] == palette[3 * j]);
        assert(image.bytes[3 * index + 1] == palette[3 * j + 1]);
        assert(image.bytes[3 * index + 2] == palette[3 * j + 2]);
        assert(color == entry(j));
    }
    lemma_len_subset(image.distinct_colors(), offered);
}

/// A picture of one colour is still a picture of one colour once every
/// pixel is replaced by the palette entry nearest to it.
pub proof fn lemma_flat_picture_stays_flat(image: ImageModel, network: NeuQuant)
    requires
        image.is_flat(),
    ensures
        quantized(image, network).distinct_colors().finite(),
        quantized(image, network).distinct_colors().len() == 1,
{
    let pixels = image.rgba_bytes();
    let count = image.pixel_count();
    let first = pixels.subrange(0, 4);
    let chosen = best_index(network, first) as int;
    let palette = color_map(network);
    let result = quantized(image, network);
    assert forall|pixel: int| 0 <= pixel < count implies #[trigger] nearest_indices(
        network,
        pixels,
    )[pixel] == chosen by {
        assert(image.pixel(pixel) == image.pixel(0));
        assert(pixels.subrange(4 * pixel, 4 * pixel + 4) =~= first);
    }
    let shown = Rgba {
        r: palette[3 * chosen],
        g: palette[3 * chosen + 1],
        b: palette[3 * chosen + 2],
        a: 255,
    };
    let indices = nearest_indices(network, pixels);
    assert(pixels.len() == 4 * count);
    assert(indices.len() == count);
    assert(result.bytes.len() == 3 * count);
    assert(result.pixel_count() == count);
    assert forall|pixel: int| 0 <= pixel < count implies #[trigger] result.pixel(pixel)
        == shown by {
        assert(indices[pixel] == chosen);
        assert((3 * pixel) / 3 == pixel && (3 * pixel) % 3 == 0);
        assert((3 * pixel + 1) / 3 == pixel && (3 * pixel + 1) % 3 == 1);
        assert((3 * pixel + 2) / 3 == pixel && (3 * pixel + 2) % 3 == 2);
        assert(result.bytes[3 * pixel] == palette[3 * indices[(3 * pixel) / 3] + 0]);
        assert(result.bytes[3 * pixel + 1] == palette[3 * indices[(3 * pixel + 1) / 3] + 1]);
        assert(result.bytes[3 * pixel + 2] == palette[3 * indices[(3 * pixel + 2) / 3] + 2]);
        assert(result.layout == ColorLayout::Rgb);
        assert(result.pixel(pixel).r == result.bytes[pixel * 3]);
        assert(result.pixel(pixel).r == shown.r);
        assert(result.pixel(pixel).g == shown.g);
        assert(result.pixel(pixel).b == shown.b);
        assert(result.pixel(pixel).a == shown.a);
    }
    assert(result.pixel(0) == shown);
    assert(result.distinct_colors() =~= set![shown]);
}

/// Builds the bytes of a picture from a palette of three bytes per entry
/// and one palette index per pixel. Returns `None` if an index names no
/// entry of the palette.
pub fn apply_palette(palette: &[u8], indices: &[usize]) -> (pixels: Option<Vec<u8>>)
    ensures
        pixels is Some <==> palette_holds(palette@, indices@),
        pixels matches Some(bytes) ==> bytes@ == remapped(palette@, indices@),
{
    let length: usize = palette.len();
    let entries: usize = length / 3;
    let mut bytes: Vec<u8> = Vec::new();
    let mut at: usize = 0;
    while at < indices.len()
        invariant
            at <= indices@.len(),
            length == palette@.len(),
            entries == length / 3,
            bytes@.len() == 3 * at,
            forall|i: int| 0 <= i < at ==> 3 * #[trigger] indices@[i] + 3 <= palette@.len(),
            forall|i: int|
                0 <= i < bytes@.len() ==> #[trigger] bytes@[i] == palette@[3 * indices@[i / 3] + i
                    % 3],
        decreases indices@.len() - at,
    {
        let index: usize = indices[at];
        if index >= entries {
            return None;
        }
        let base: usize = index * 3;
        bytes.push(palette[base]);
        bytes.push(palette[base + 1]);
        bytes.push(palette[base + 2]);
        at += 1;
    }
    assert(bytes@ =~= remapped(palette@, indices@));
    Some(bytes)
}

/// Asks the network, for each RGBA pixel, which palette entry is nearest.
fn index_pixels(network: &NeuQuant, pixels: &[u8]) -> (indices: Vec<usize>)
    requires
        pixels@.len() % 4 == 0,
    ensures
        indices@ == nearest_indices(*network, pixels@),
        palette_holds(color_map(*network), indices@),
{
    let length: usize = pixels.len();
    let count: usize = length / 4;
    let mut indices: Vec<usize> = Vec::new();
    let mut pixel: usize = 0;
    while pixel < count
        invariant
            pixel <= count,
            length == pixels@.len(),
            count == length / 4,
            length % 4 == 0,
            indices@.len() == pixel,
            forall|i: int|
                0 <= i < pixel ==> #[trigger] indices@[i] == best_index(
                    *network,
                    pixels@.subrange(4 * i, 4 * i + 4),
                ),
            forall|i: int|
                0 <= i < pixel ==> 3 * #[trigger] indices@[i] + 3 <= color_map(*network).len(),
        decreases count - pixel,
    {
        let sample = slice_subrange(pixels, pixel * 4, pixel * 4 + 4);
        indices.push(network.index_of(sample));
        pixel += 1;
    }
    assert(indices@ =~= nearest_indices(*network, pixels@));
    indices
}

/// Reduces a picture to at most `colors` colours.
///
/// A palette of `colors` entries is trained on every pixel of the picture,
/// taken as RGBA, and each pixel is replaced by the entry nearest to it. The
/// result has the dimensions of the source and no alpha: every pixel of it
/// is an entry of the palette, and a picture of one colour stays one.
/// `colors` must lie between 1 and `MAX_COLORS`.
pub fn reduce_colors(img: &PixelBuffer, colors: usize) -> (reduced: Result<
    PixelBuffer,
    QuantizeError,
>)
    ensures
        match reduced {
            Ok(image) => {
                &&& 1 <= colors <= MAX_COLORS
                &&& image@ == quantized(
                    img@,
                    trained_network(SAMPLE_FACTOR, colors, img@.rgba_bytes()),
                )
                &&& palette_holds(
                    color_map(trained_network(SAMPLE_FACTOR, colors, img@.rgba_bytes())),
                    nearest_indices(
                        trained_network(SAMPLE_FACTOR, colors, img@.rgba_bytes()),
                        img@.rgba_bytes(),
                    ),
                )
                &&& image@.width == img@.width
                &&& image@.height == img@.height
                &&& image@.well_formed()
                &&& image@.distinct_colors().finite()
                &&& image@.distinct_colors().len() <= colors
                &&& img@.is_flat() ==> image@.distinct_colors().len() == 1
            },
            Err(QuantizeError::InvalidColorCount) => colors == 0 || colors > MAX_COLORS,
        },
{
    if colors == 0 || colors > MAX_COLORS {
        return Err(QuantizeError::InvalidColorCount);
    }
    let (width, height) = img.dimensions();
    let pixels = img.to_rgba().into_raw();
    let quantizer = NeuQuant::new(SAMPLE_FACTOR, colors, pixels.as_slice());
    let indices = index_pixels(&quantizer, pixels.as_slice());
    let palette = quantizer.color_map_rgb();
    let quantized_pixels = apply_palette(palette.as_slice(), indices.as_slice()).unwrap();
    let image = PixelBuffer::from_raw(width, height, ColorLayout::Rgb, quantized_pixels).unwrap();
    proof {
        lemma_palette_bounds_colors(image@, palette@, indices@);
        if img@.is_flat() {
            lemma_flat_picture_stays_flat(img@, quantizer);
        }
    }
    Ok(image)
}

} // verus!
