//! Rasterizing vector markup onto a square canvas of a fixed size.

use crate::buffer::PixelBuffer;
use crate::pixel::ColorLayout;
use resvg::tiny_skia::{Pixmap, Transform};
use resvg::usvg::{Error, Options, Tree};
use vstd::prelude::*;
use vstd::slice::slice_to_vec;

verus! {

/// A parsed vector document.
#[verifier::external_type_specification]
#[verifier::external_body]
pub struct ExTree(Tree);

/// The error of the markup parser.
#[verifier::external_type_specification]
#[verifier::external_body]
pub struct ExError(Error);

/// The canvas that the rasterizer paints on.
#[verifier::external_type_specification]
#[verifier::external_body]
pub struct ExPixmap(Pixmap);

/// The edge of the canvas that `render_svg_to_image` paints on.
pub const ICON_SIZE: u32 = 32;

/// Why markup could not be rasterized.
#[derive(Clone, Copy, Debug, PartialEq, Eq, Structural)]
pub enum RenderError {
    /// The canvas was to have no pixels.
    EmptyCanvas,
    /// The markup could not be parsed.
    Parse,
    /// The canvas could not be had in the size asked for, or does not hold
    /// the pixels of that size.
    Canvas,
}

/// The bytes that a canvas holds, four per pixel.
pub uninterp spec fn pixmap_bytes(pixmap: Pixmap) -> Seq<u8>;

/// `Tree::from_data` with `Options::default()`.
///
/// Trusted: nothing but that it returns.
#[verifier::external_body]
fn parse_tree(input: &[u8]) -> Result<Tree, Error> {
    Tree::from_data(input, &Options::default())
}

/// Whether a canvas of `width` x `height` pixels can be allocated: it has
/// pixels, a row of it takes no more bytes than an `i32` counts, and all of
/// it is no longer than an allocation can be.
pub open spec fn canvas_fits(width: u32, height: u32) -> bool {
    &&& width > 0
    &&& height > 0
    &&& width * 4 <= i32::MAX
    &&& width * height * 4 <= isize::MAX
}

/// `Pixmap::new` allocates a canvas. It refuses one without pixels and one
/// whose row takes more bytes than an `i32` counts.
///
/// Trusted: those are the only canvases it refuses, and a canvas that is
/// handed out holds four bytes for each of its `width * height` pixels.
/// Left out are the canvases that are longer than an allocation can be.
pub assume_specification[ Pixmap::new ](width: u32, height: u32) -> (pixmap: Option<Pixmap>)
    requires
        width * height * 4 <= isize::MAX,
    ensures
        pixmap is Some <==> canvas_fits(width, height),
        pixmap matches Some(canvas) ==> pixmap_bytes(canvas).len() == width * height * 4,
;

/// Decides whether `canvas_fits`.
fn check_canvas_fits(width: u32, height: u32) -> (fits: bool)
    ensures
        fits == canvas_fits(width, height),
{
    proof {
        assert(0 <= width * height <= 0xffff_ffff * 0xffff_ffff) by (nonlinear_arith)
            requires
                0 <= width <= 0xffff_ffff,
                0 <= height <= 0xffff_ffff,
        ;
    }
    let bytes: u128 = width as u128 * height as u128 * 4;
    width > 0 && height > 0 && width <= 0x1fff_ffff && bytes <= isize::MAX as u128
}

/// `Pixmap::data` lends the bytes of a canvas.
pub assume_specification<'a>[ Pixmap::data ](pixmap: &'a Pixmap) -> (data: &'a [u8])
    ensures
        data@ == pixmap_bytes(*pixmap),
;

/// `resvg::render` with `Transform::default()`, onto the whole canvas.
///
/// Trusted: the canvas keeps its size. Nothing is claimed of what is
/// painted.
#[verifier::external_body]
fn render_tree(tree: &Tree, pixmap: &mut Pixmap)
    ensures
        pixmap_bytes(*final(pixmap)).len() == pixmap_bytes(*old(pixmap)).len(),
{
    resvg::render(tree, Transform::default(), &mut pixmap.as_mut());
}

/// What `rasterize` returns once the parser has answered and the canvas is
/// at hand: markup that was refused is a parse failure; markup that was
/// accepted is painted onto the canvas, and the canvas comes back as a
/// picture of four channels. A canvas that does not hold `target_size` x
/// `target_size` pixels is refused once the markup has been accepted.
pub fn painted_or_failure(
    parsed: Result<Tree, Error>,
    pixmap: Pixmap,
    target_size: u32,
) -> (outcome: Result<PixelBuffer, RenderError>)
    ensures
        match parsed {
            Ok(_) => if pixmap_bytes(pixmap).len() == target_size * target_size * 4 {
                &&& outcome matches Ok(image)
                &&& image@.width == target_size
                &&& image@.height == target_size
                &&& image@.layout == ColorLayout::Rgba
                &&& image@.well_formed()
            } else {
                outcome matches Err(error) && error == RenderError::Canvas
            },
            Err(_) => outcome matches Err(error) && error == RenderError::Parse,
        },
{
    let tree = match parsed {
        Ok(tree) => tree,
        Err(_) => {
            return Err(RenderError::Parse);
        },
    };
    let mut canvas = pixmap;
    render_tree(&tree, &mut canvas);
    let data = slice_to_vec(canvas.data());
    match PixelBuffer::from_raw(target_size, target_size, ColorLayout::Rgba, data) {
        Some(image) => Ok(image),
        None => Err(RenderError::Canvas),
    }
}

/// Paints vector markup onto a transparent canvas of `target_size` x
/// `target_size` pixels, whatever size the document declares for itself.
/// The result has four channels.
///
/// A canvas without pixels is refused, then one that cannot be allocated.
/// What the parser makes of the markup decides the rest, as
/// `painted_or_failure` says.
pub fn rasterize(input: &[u8], target_size: u32) -> (rendered: Result<PixelBuffer, RenderError>)
    ensures
        match rendered {
            Ok(image) => {
                &&& canvas_fits(target_size, target_size)
                &&& image@.width == target_size
                &&& image@.height == target_size
                &&& image@.layout == ColorLayout::Rgba
                &&& image@.well_formed()
            },
            Err(RenderError::EmptyCanvas) => target_size == 0,
            Err(RenderError::Canvas) => target_size > 0 && !canvas_fits(target_size, target_size),
            Err(RenderError::Parse) => canvas_fits(target_size, target_size),
        },
{
    if target_size == 0 {
        return Err(RenderError::EmptyCanvas);
    }
    if !check_canvas_fits(target_size, target_size) {
        return Err(RenderError::Canvas);
    }
    let pixmap = match Pixmap::new(target_size, target_size) {
        Some(pixmap) => pixmap,
        None => {
            return Err(RenderError::Canvas);
        },
    };
    painted_or_failure(parse_tree(input), pixmap, target_size)
}

/// Paints vector markup onto a canvas of `ICON_SIZE` x `ICON_SIZE` pixels.
pub fn render_svg_to_image(input: &[u8]) -> (rendered: Result<PixelBuffer, RenderError>)
    ensures
        rendered matches Ok(image) ==> {
            &&& image@.width == ICON_SIZE
            &&& image@.height == ICON_SIZE
            &&& image@.layout == ColorLayout::Rgba
            &&& image@.well_formed()
        },
        rendered matches Err(error) ==> error == RenderError::Parse,
{
    rasterize(input, ICON_SIZE)
}

} // verus!
