//! The square canvas: a flat background with content pasted onto it.

use crate::buffer::PixelBuffer;
use crate::pixel::{ColorLayout, ImageModel, Rgba};
use vstd::prelude::*;

verus! {

/// Whether the cell `(x, y)` of a canvas lies under a picture `top` whose
/// top-left corner is pasted at `(paste_x, paste_y)`.
pub open spec fn covered(top: ImageModel, paste_x: int, paste_y: int, x: int, y: int) -> bool {
    top.contains(x - paste_x, y - paste_y)
}

/// The colour of cell `(x, y)` of `canvas` after `top` is pasted at
/// `(paste_x, paste_y)`: the pasted pixel overwrites, nothing is blended.
pub open spec fn pasted_color(
    canvas: ImageModel,
    top: ImageModel,
    paste_x: int,
    paste_y: int,
    x: int,
    y: int,
) -> Rgba {
    if covered(top, paste_x, paste_y, x, y) {
        canvas.stored(top.color_at(x - paste_x, y - paste_y))
    } else {
        canvas.color_at(x, y)
    }
}

/// The colour of cell `(x, y)` while a paste is under way: the first `rows`
/// rows of `top` and the first `columns` pixels of the next are done.
spec fn partly_pasted_color(
    canvas: ImageModel,
    top: ImageModel,
    paste_x: int,
    paste_y: int,
    rows: int,
    columns: int,
    x: int,
    y: int,
) -> Rgba {
    if covered(top, paste_x, paste_y, x, y) && (y - paste_y < rows || (y - paste_y == rows && x
        - paste_x < columns)) {
        canvas.stored(top.color_at(x - paste_x, y - paste_y))
    } else {
        canvas.color_at(x, y)
    }
}

/// The colour of the top-left pixel of a picture.
pub fn get_top_left_color(input_image: &PixelBuffer) -> (color: Rgba)
    requires
        input_image@.width > 0,
        input_image@.height > 0,
    ensures
        color == input_image@.color_at(0, 0),
{
    input_image.get_pixel(0, 0)
}

/// A square canvas of edge `output_size` without alpha, every pixel of which
/// has the colour `background_color`.
pub fn create_square_image(output_size: u32, background_color: Rgba) -> (canvas: PixelBuffer)
    ensures
        canvas@.width == output_size,
        canvas@.height == output_size,
        canvas@.layout == ColorLayout::Rgb,
        canvas@.well_formed(),
        canvas@.is_uniform(background_color),
{
    PixelBuffer::from_pixel(output_size, output_size, ColorLayout::Rgb, background_color)
}

/// Pastes `resized_image` onto `square_image` with its top-left corner at
/// `(paste_x, paste_y)`. Pasted pixels overwrite what was there; what
/// reaches past the canvas is cut off.
pub fn paste_resized_image(
    square_image: &mut PixelBuffer,
    resized_image: &PixelBuffer,
    paste_x: u32,
    paste_y: u32,
)
    ensures
        final(square_image)@.width == old(square_image)@.width,
        final(square_image)@.height == old(square_image)@.height,
        final(square_image)@.layout == old(square_image)@.layout,
        final(square_image)@.well_formed(),
        forall|x: int, y: int|
            old(square_image)@.contains(x, y) ==> #[trigger] final(square_image)@.color_at(x, y)
                == pasted_color(
                old(square_image)@,
                resized_image@,
                paste_x as int,
                paste_y as int,
                x,
                y,
            ),
{
    let (canvas_width, canvas_height) = square_image.dimensions();
    let (top_width, top_height) = resized_image.dimensions();
    let ghost before = square_image@;
    let ghost top = resized_image@;
    let mut row: u32 = 0;
    while row < top_height
        invariant
            row <= top_height,
            top == resized_image@,
            top.width == top_width,
            top.height == top_height,
            square_image@.width == before.width == canvas_width,
            square_image@.height == before.height == canvas_height,
            square_image@.layout == before.layout,
            square_image@.well_formed(),
            forall|x: int, y: int|
                before.contains(x, y) ==> #[trigger] square_image@.color_at(x, y)
                    == partly_pasted_color(
                    before,
                    top,
                    paste_x as int,
                    paste_y as int,
                    row as int,
                    0,
                    x,
                    y,
                ),
        decreases top_height - row,
    {
        let mut column: u32 = 0;
        while column < top_width
            invariant
                column <= top_width,
                row < top_height,
                top == resized_image@,
                top.width == top_width,
                top.height == top_height,
                square_image@.width == before.width == canvas_width,
                square_image@.height == before.height == canvas_height,
                square_image@.layout == before.layout,
                square_image@.well_formed(),
                forall|x: int, y: int|
                    before.contains(x, y) ==> #[trigger] square_image@.color_at(x, y)
                        == partly_pasted_color(
                        before,
                        top,
                        paste_x as int,
                        paste_y as int,
                        row as int,
                        column as int,
                        x,
                        y,
                    ),
            decreases top_width - column,
        {
            let x: u64 = paste_x as u64 + column as u64;
            let y: u64 = paste_y as u64 + row as u64;
            if x < canvas_width as u64 && y < canvas_height as u64 {
                let color = resized_image.get_pixel(column, row);
                square_image.put_pixel(x as u32, y as u32, color);
            }
            column += 1;
        }
        row += 1;
    }
}

} // verus!
