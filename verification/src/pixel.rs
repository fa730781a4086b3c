//! Pixel buffers: row-major, top-left origin, three or four 8-bit channels
//! per pixel.

use vstd::prelude::*;

verus! {

/// A colour with an alpha channel, eight bits per channel.
#[derive(Clone, Copy, Debug, PartialEq, Eq, Structural)]
pub struct Rgba {
    pub r: u8,
    pub g: u8,
    pub b: u8,
    pub a: u8,
}

impl Rgba {
    /// The same colour, fully opaque.
    pub open spec fn opaque(self) -> Rgba {
        Rgba { r: self.r, g: self.g, b: self.b, a: 255 }
    }

    /// The channel of this colour that is stored `channel` bytes into a
    /// pixel.
    pub open spec fn channel(self, channel: int) -> u8 {
        if channel == 0 {
            self.r
        } else if channel == 1 {
            self.g
        } else if channel == 2 {
            self.b
        } else {
            self.a
        }
    }
}

/// How many channels a pixel has.
#[derive(Clone, Copy, Debug, PartialEq, Eq, Structural)]
pub enum ColorLayout {
    /// Red, green, blue.
    Rgb,
    /// Red, green, blue, alpha.
    Rgba,
}

impl ColorLayout {
    /// The number of bytes of one pixel.
    pub open spec fn spec_channels(self) -> int {
        match self {
            ColorLayout::Rgb => 3,
            ColorLayout::Rgba => 4,
        }
    }

    /// The number of bytes of one pixel.
    pub fn channels(self) -> (count: usize)
        ensures
            count == self.spec_channels(),
    {
        match self {
            ColorLayout::Rgb => 3,
            ColorLayout::Rgba => 4,
        }
    }
}

/// The mathematical content of a pixel buffer.
pub struct ImageModel {
    pub width: u32,
    pub height: u32,
    pub layout: ColorLayout,
    pub bytes: Seq<u8>,
}

impl ImageModel {
    /// The number of bytes that `width * height` pixels of this layout take.
    pub open spec fn byte_count(self) -> int {
        self.width * self.height * self.layout.spec_channels()
    }

    /// The byte sequence holds exactly one pixel per cell.
    pub open spec fn well_formed(self) -> bool {
        self.bytes.len() == self.byte_count()
    }

    /// Whether `(x, y)` names a cell of the picture.
    pub open spec fn contains(self, x: int, y: int) -> bool {
        0 <= x < self.width && 0 <= y < self.height
    }

    /// The number of pixels.
    pub open spec fn pixel_count(self) -> int {
        self.width * self.height
    }

    /// The position of `(x, y)` in row-major order.
    pub open spec fn cell(self, x: int, y: int) -> int {
        y * self.width + x
    }

    /// Where the pixel at `(x, y)` starts in the byte sequence.
    pub open spec fn offset(self, x: int, y: int) -> int {
        self.cell(x, y) * self.layout.spec_channels()
    }

    /// The colour of the pixel at position `index` in row-major order; a
    /// picture without alpha is opaque everywhere.
    pub open spec fn pixel(self, index: int) -> Rgba {
        let at = index * self.layout.spec_channels();
        Rgba {
            r: self.bytes[at],
            g: self.bytes[at + 1],
            b: self.bytes[at + 2],
            a: match self.layout {
                ColorLayout::Rgb => 255,
                ColorLayout::Rgba => self.bytes[at + 3],
            },
        }
    }

    /// The colour at `(x, y)`.
    pub open spec fn color_at(self, x: int, y: int) -> Rgba {
        self.pixel(self.cell(x, y))
    }

    /// What a pixel of this layout holds after `color` is stored in it.
    pub open spec fn stored(self, color: Rgba) -> Rgba {
        match self.layout {
            ColorLayout::Rgb => color.opaque(),
            ColorLayout::Rgba => color,
        }
    }

    /// The bytes of the same picture with four channels per pixel.
    pub open spec fn rgba_bytes(self) -> Seq<u8> {
        Seq::new((self.pixel_count() * 4) as nat, |i: int| self.pixel(i / 4).channel(i % 4))
    }

    /// The same picture with four channels per pixel.
    pub open spec fn as_rgba(self) -> ImageModel {
        ImageModel {
            width: self.width,
            height: self.height,
            layout: ColorLayout::Rgba,
            bytes: self.rgba_bytes(),
        }
    }

    /// The colours that occur in the picture.
    pub open spec fn distinct_colors(self) -> Set<Rgba> {
        Set::new(
            |color: Rgba|
                exists|index: int| 0 <= index < self.pixel_count() && self.pixel(index) == color,
        )
    }

    /// Whether the picture has pixels and all of them have the same colour.
    pub open spec fn is_flat(self) -> bool {
        &&& self.pixel_count() > 0
        &&& forall|index: int|
            0 <= index < self.pixel_count() ==> #[trigger] self.pixel(index) == self.pixel(0)
    }

    /// Whether every pixel has the colour `color`, ignoring its alpha where
    /// the layout stores none.
    pub open spec fn is_uniform(self, color: Rgba) -> bool {
        forall|x: int, y: int|
            self.contains(x, y) ==> #[trigger] self.color_at(x, y) == self.stored(color)
    }
}

/// The pixels of a well-formed picture lie inside its byte sequence, one
/// after the other.
pub proof fn lemma_offset_in_bounds(image: ImageModel, x: int, y: int)
    requires
        image.well_formed(),
        image.contains(x, y),
    ensures
        0 <= image.offset(x, y),
        image.offset(x, y) + image.layout.spec_channels() <= image.bytes.len(),
        0 <= y * image.width <= image.cell(x, y) < image.pixel_count(),
        image.pixel_count() <= image.bytes.len(),
{
    let w = image.width as int;
    let h = image.height as int;
    let c = image.layout.spec_channels();
    assert(0 <= y * w + x && y * w + x + 1 <= w * h) by (nonlinear_arith)
        requires
            0 <= x < w,
            0 <= y < h,
    ;
    assert(0 <= y * w) by (nonlinear_arith)
        requires
            0 <= y,
            0 <= w,
    ;
    assert((y * w + x) * c + c <= w * h * c && 0 <= (y * w + x) * c && w * h <= w * h * c)
        by (nonlinear_arith)
        requires
            0 <= y * w + x,
            y * w + x + 1 <= w * h,
            c > 0,
    ;
}

/// A picture shows the same colours when it is given four channels.
pub proof fn lemma_as_rgba_keeps_colors(image: ImageModel, x: int, y: int)
    requires
        image.contains(x, y),
    ensures
        image.as_rgba().well_formed(),
        image.as_rgba().contains(x, y),
        image.as_rgba().color_at(x, y) == image.color_at(x, y),
{
    let w = image.width as int;
    let h = image.height as int;
    assert(0 <= y * w + x && y * w + x + 1 <= w * h) by (nonlinear_arith)
        requires
            0 <= x < w,
            0 <= y < h,
    ;
}

/// Different cells of a picture have different positions in row-major
/// order.
pub proof fn lemma_cells_differ(image: ImageModel, x1: int, y1: int, x2: int, y2: int)
    requires
        image.contains(x1, y1),
        image.contains(x2, y2),
        x1 != x2 || y1 != y2,
    ensures
        image.cell(x1, y1) != image.cell(x2, y2),
{
    let w = image.width as int;
    if y1 < y2 {
        assert(y1 * w + w <= y2 * w) by (nonlinear_arith)
            requires
                y1 + 1 <= y2,
                w >= 0,
        ;
    } else if y2 < y1 {
        assert(y2 * w + w <= y1 * w) by (nonlinear_arith)
            requires
                y2 + 1 <= y1,
                w >= 0,
        ;
    }
}

} // verus!
