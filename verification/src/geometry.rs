//! Integer geometry of fitting a rectangle into a square canvas.

use vstd::prelude::*;

verus! {

/// The longer of the two sides of a rectangle.
pub open spec fn longest_side(width: u32, height: u32) -> u32 {
    if width >= height {
        width
    } else {
        height
    }
}

/// One side of a rectangle after uniform scaling that maps the rectangle's
/// longest side onto `output_size`, rounded towards zero.
///
/// The scale factor is the rational `output_size / longest`; a rectangle
/// without any extent scales to nothing.
pub open spec fn scaled_side(side: u32, longest: u32, output_size: u32) -> int {
    if longest == 0 {
        0
    } else {
        (side as int * output_size as int) / (longest as int)
    }
}

/// The dimensions of the content of a `width` x `height` picture once it is
/// fitted into a square of edge `output_size`.
pub open spec fn fitted_size(width: u32, height: u32, output_size: u32) -> (int, int) {
    (
        scaled_side(width, longest_side(width, height), output_size),
        scaled_side(height, longest_side(width, height), output_size),
    )
}

/// The offset that centres a span of `inner` cells inside `outer` cells,
/// biased towards the start when the remainder is odd.
pub open spec fn centered_offset(outer: u32, inner: u32) -> int {
    (outer - inner) / 2
}

/// A centred span lies inside the outer one, and the room behind it is the
/// room before it or one cell more.
pub proof fn lemma_centered_offset(outer: u32, inner: u32)
    requires
        inner <= outer,
    ensures
        0 <= centered_offset(outer, inner),
        centered_offset(outer, inner) + inner <= outer,
        ({
            let before = centered_offset(outer, inner);
            let behind = outer - inner - before;
            behind == before || behind == before + 1
        }),
{
}

/// A side never scales past the canvas edge, and the longest side lands on it
/// exactly.
pub proof fn lemma_scaled_side_bounds(side: u32, longest: u32, output_size: u32)
    requires
        side <= longest,
    ensures
        0 <= scaled_side(side, longest, output_size) <= output_size,
        side == longest && longest > 0 ==> scaled_side(side, longest, output_size) == output_size,
{
    if longest > 0 {
        let s = side as int;
        let l = longest as int;
        let o = output_size as int;
        assert(0 <= (s * o) / l <= o) by (nonlinear_arith)
            requires
                0 <= s <= l,
                l > 0,
                o >= 0,
        ;
        assert((l * o) / l == o) by (nonlinear_arith)
            requires
                l > 0,
        ;
    }
}

/// A picture whose longest side is the edge of the canvas keeps its
/// dimensions.
pub proof fn lemma_fitted_size_of_unscaled(width: u32, height: u32)
    ensures
        fitted_size(width, height, longest_side(width, height)) == (width as int, height as int),
{
    let l = longest_side(width, height) as int;
    let w = width as int;
    let h = height as int;
    if l > 0 {
        assert((w * l) / l == w && (h * l) / l == h) by (nonlinear_arith)
            requires
                l > 0,
        ;
    }
}

/// Fitting keeps the aspect ratio up to the truncation of one pixel: the
/// cross products of old and new dimensions differ by less than the longest
/// side of the source.
pub proof fn lemma_fitted_size_keeps_aspect(width: u32, height: u32, output_size: u32)
    requires
        width > 0,
        height > 0,
    ensures
        ({
            let (new_width, new_height) = fitted_size(width, height, output_size);
            let cross = new_width * height - new_height * width;
            &&& -(longest_side(width, height) as int) < cross < longest_side(width, height)
            &&& width >= height ==> new_width == output_size && 0 <= cross
            &&& height >= width ==> new_height == output_size && cross <= 0
        }),
{
    let w = width as int;
    let h = height as int;
    let o = output_size as int;
    lemma_scaled_side_bounds(width, longest_side(width, height), output_size);
    lemma_scaled_side_bounds(height, longest_side(width, height), output_size);
    if width >= height {
        let q = (h * o) / w;
        assert(0 <= h * o - q * w < w && o * h == h * o) by (nonlinear_arith)
            requires
                w > 0,
                q == (h * o) / w,
        ;
    } else {
        let q = (w * o) / h;
        assert(0 <= w * o - q * h < h && o * w == w * o) by (nonlinear_arith)
            requires
                h > 0,
                q == (w * o) / h,
        ;
    }
}

/// Computes the dimensions of the content of a `input_width` x `input_height`
/// picture fitted into a square of edge `output_size`, keeping its aspect
/// ratio and truncating to whole pixels.
pub fn calculate_size(input_width: u32, input_height: u32, output_size: u32) -> (size: (u32, u32))
    ensures
        (size.0 as int, size.1 as int) == fitted_size(input_width, input_height, output_size),
        size.0 <= output_size,
        size.1 <= output_size,
        input_width > 0 && input_height > 0 ==> size.0 == output_size || size.1 == output_size,
        input_width > 0 && input_height > 0 ==> {
            let cross = size.0 * input_height - size.1 * input_width;
            -(longest_side(input_width, input_height) as int) < cross < longest_side(
                input_width,
                input_height,
            )
        },
{
    let longest: u32 = if input_width >= input_height {
        input_width
    } else {
        input_height
    };
    proof {
        lemma_scaled_side_bounds(input_width, longest, output_size);
        lemma_scaled_side_bounds(input_height, longest, output_size);
        if input_width > 0 && input_height > 0 {
            lemma_fitted_size_keeps_aspect(input_width, input_height, output_size);
        }
    }
    if longest == 0 {
        return (0, 0);
    }
    let new_width: u64 = scale_side(input_width, longest, output_size);
    let new_height: u64 = scale_side(input_height, longest, output_size);
    (new_width as u32, new_height as u32)
}

/// Scales one side by `output_size / longest` in 64-bit arithmetic.
fn scale_side(side: u32, longest: u32, output_size: u32) -> (scaled: u64)
    requires
        longest > 0,
        side <= longest,
    ensures
        scaled == scaled_side(side, longest, output_size),
        scaled <= output_size,
{
    proof {
        lemma_scaled_side_bounds(side, longest, output_size);
        assert(side as int * output_size as int <= 0xffff_ffff * 0xffff_ffff) by (nonlinear_arith)
            requires
                0 <= side <= 0xffff_ffff,
                0 <= output_size <= 0xffff_ffff,
        ;
    }
    (side as u64 * output_size as u64) / (longest as u64)
}

} // verus!
