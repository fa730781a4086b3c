//! The owned pixel buffer and its constructors and accessors.

use crate::pixel::{lemma_cells_differ, lemma_offset_in_bounds, ColorLayout, ImageModel, Rgba};
use vstd::prelude::*;

verus! {

/// A picture: `width * height` pixels in row-major order, each of
/// `layout.channels()` bytes.
///
/// Every value of this type holds exactly as many bytes as its dimensions
/// and layout call for.
#[derive(Debug)]
pub struct PixelBuffer {
    width: u32,
    height: u32,
    layout: ColorLayout,
    data: Vec<u8>,
}

impl View for PixelBuffer {
    type V = ImageModel;

    closed spec fn view(&self) -> ImageModel {
        ImageModel {
            width: self.width,
            height: self.height,
            layout: self.layout,
            bytes: self.data@,
        }
    }
}

impl Clone for PixelBuffer {
    /// A copy with the same dimensions, layout and bytes.
    fn clone(&self) -> (copy: Self)
        ensures
            copy@ == self@,
    {
        proof {
            use_type_invariant(self);
        }
        let data = self.data.clone();
        assert(data@ =~= self.data@);
        PixelBuffer { width: self.width, height: self.height, layout: self.layout, data }
    }
}

impl PixelBuffer {
    #[verifier::type_invariant]
    spec fn holds_all_pixels(self) -> bool {
        self@.well_formed()
    }

    /// Takes ownership of raw pixel bytes. Returns `None` unless `data`
    /// holds exactly `width * height` pixels of `layout`.
    pub fn from_raw(width: u32, height: u32, layout: ColorLayout, data: Vec<u8>) -> (buffer: Option<
        PixelBuffer,
    >)
        ensures
            buffer is Some <==> data@.len() == width * height * layout.spec_channels(),
            buffer matches Some(b) ==> b@ == (ImageModel { width, height, layout, bytes: data@ })
                && b@.well_formed(),
    {
        let channels = layout.channels();
        proof {
            assert(0 <= width * height <= 0xffff_ffff * 0xffff_ffff) by (nonlinear_arith)
                requires
                    0 <= width <= 0xffff_ffff,
                    0 <= height <= 0xffff_ffff,
            ;
        }
        let cells: u128 = width as u128 * height as u128;
        let expected: u128 = cells * channels as u128;
        if data.len() as u128 == expected {
            Some(PixelBuffer { width, height, layout, data })
        } else {
            None
        }
    }

    /// A picture of one colour. The alpha of `color` is dropped where
    /// `layout` stores none.
    pub fn from_pixel(width: u32, height: u32, layout: ColorLayout, color: Rgba) -> (buffer:
        PixelBuffer)
        ensures
            buffer@.width == width,
            buffer@.height == height,
            buffer@.layout == layout,
            buffer@.well_formed(),
            buffer@.bytes == Seq::new(
                (width * height * layout.spec_channels()) as nat,
                |i: int| color.channel(i % layout.spec_channels()),
            ),
            buffer@.is_uniform(color),
            width > 0 && height > 0 ==> buffer@.is_flat(),
    {
        let channels = layout.channels();
        let mut data: Vec<u8> = Vec::new();
        let mut y: u32 = 0;
        while y < height
            invariant
                y <= height,
                channels == layout.spec_channels(),
                data@.len() == y * width * channels,
                forall|i: int|
                    0 <= i < data@.len() ==> #[trigger] data@[i] == color.channel(
                        i % channels as int,
                    ),
            decreases height - y,
        {
            let mut x: u32 = 0;
            while x < width
                invariant
                    x <= width,
                    y < height,
                    channels == layout.spec_channels(),
                    data@.len() == (y * width + x) * channels,
                    forall|i: int|
                        0 <= i < data@.len() ==> #[trigger] data@[i] == color.channel(
                            i % channels as int,
                        ),
                decreases width - x,
            {
                let ghost start = data@.len() as int;
                assert(start % channels as int == 0) by (nonlinear_arith)
                    requires
                        start == (y * width + x) * channels,
                        channels > 0,
                ;
                data.push(color.r);
                data.push(color.g);
                data.push(color.b);
                if channels == 4 {
                    data.push(color.a);
                }
                assert(data@.len() == (y * width + (x + 1)) * channels) by (nonlinear_arith)
                    requires
                        data@.len() == start + channels,
                        start == (y * width + x) * channels,
                ;
                x += 1;
            }
            assert((y * width + width) * channels == (y + 1) * width * channels)
                by (nonlinear_arith);
            y += 1;
        }
        assert(height * width * channels == width * height * channels) by (nonlinear_arith);
        let buffer = PixelBuffer { width, height, layout, data };
        proof {
            assert(buffer@.bytes =~= Seq::new(
                (width * height * layout.spec_channels()) as nat,
                |i: int| color.channel(i % layout.spec_channels()),
            ));
            if width > 0 && height > 0 {
                let c = layout.spec_channels();
                let count = buffer@.pixel_count();
                assert(count > 0 && count * c == width * height * c) by (nonlinear_arith)
                    requires
                        count == width * height,
                        width > 0,
                        height > 0,
                ;
                assert forall|index: int| 0 <= index < count implies #[trigger] buffer@.pixel(
                    index,
                ) == buffer@.pixel(0) by {
                    let at = index * c;
                    assert(0 <= at && at + c <= count * c) by (nonlinear_arith)
                        requires
                            0 <= index,
                            index + 1 <= count,
                            at == index * c,
                            c > 0,
                    ;
                    assert(at % c == 0 && (at + 1) % c == 1 && (at + 2) % c == 2 && (c == 4 ==> (at
                        + 3) % c == 3)) by (nonlinear_arith)
                        requires
                            at == index * c,
                            c == 3 || c == 4,
                    ;
                }
            }
            assert forall|px: int, py: int|
                buffer@.contains(px, py) implies #[trigger] buffer@.color_at(px, py)
                == buffer@.stored(color) by {
                lemma_offset_in_bounds(buffer@, px, py);
                let at = buffer@.offset(px, py);
                let c = layout.spec_channels();
                assert(at % c == 0 && (at + 1) % c == 1 && (at + 2) % c == 2 && (c == 4 ==> (at
                    + 3) % c == 3)) by (nonlinear_arith)
                    requires
                        at == (py * (width as int) + px) * c,
                        c == 3 || c == 4,
                ;
            }
        }
        buffer
    }

    /// The number of pixels in a row.
    pub fn width(&self) -> (width: u32)
        ensures
            width == self@.width,
    {
        self.width
    }

    /// The number of rows.
    pub fn height(&self) -> (height: u32)
        ensures
            height == self@.height,
    {
        self.height
    }

    /// Width and height, in this order.
    pub fn dimensions(&self) -> (size: (u32, u32))
        ensures
            size == (self@.width, self@.height),
            self@.well_formed(),
    {
        proof {
            use_type_invariant(self);
        }
        (self.width, self.height)
    }

    /// The channel layout of each pixel.
    pub fn layout(&self) -> (layout: ColorLayout)
        ensures
            layout == self@.layout,
    {
        self.layout
    }

    /// The raw bytes, row by row.
    pub fn as_raw(&self) -> (bytes: &Vec<u8>)
        ensures
            bytes@ == self@.bytes,
            self@.well_formed(),
    {
        proof {
            use_type_invariant(self);
        }
        &self.data
    }

    /// Gives up the picture for its raw bytes.
    pub fn into_raw(self) -> (bytes: Vec<u8>)
        ensures
            bytes@ == self@.bytes,
            self@.well_formed(),
    {
        proof {
            use_type_invariant(&self);
        }
        self.data
    }

    /// Where the pixel at `(x, y)` starts in the raw bytes.
    fn pixel_start(&self, x: u32, y: u32) -> (at: usize)
        requires
            self@.contains(x as int, y as int),
        ensures
            at == self@.offset(x as int, y as int),
            at + self@.layout.spec_channels() <= self@.bytes.len() <= usize::MAX,
    {
        proof {
            use_type_invariant(self);
            lemma_offset_in_bounds(self@, x as int, y as int);
        }
        assert(self.data.len() == self.data@.len());
        assert(0 <= y as int * self.width as int <= self@.cell(x as int, y as int));
        let cell: usize = y as usize * self.width as usize + x as usize;
        cell * self.layout.channels()
    }

    /// The colour of the pixel in column `x` of row `y`.
    pub fn get_pixel(&self, x: u32, y: u32) -> (color: Rgba)
        requires
            self@.contains(x as int, y as int),
        ensures
            color == self@.color_at(x as int, y as int),
    {
        proof {
            use_type_invariant(self);
            lemma_offset_in_bounds(self@, x as int, y as int);
        }
        let at: usize = self.pixel_start(x, y);
        let alpha: u8 = match self.layout {
            ColorLayout::Rgb => 255,
            ColorLayout::Rgba => self.data[at + 3],
        };
        Rgba { r: self.data[at], g: self.data[at + 1], b: self.data[at + 2], a: alpha }
    }

    /// Overwrites the pixel in column `x` of row `y`. The alpha of `color`
    /// is dropped where the layout stores none.
    pub fn put_pixel(&mut self, x: u32, y: u32, color: Rgba)
        requires
            old(self)@.contains(x as int, y as int),
        ensures
            final(self)@.width == old(self)@.width,
            final(self)@.height == old(self)@.height,
            final(self)@.layout == old(self)@.layout,
            final(self)@.well_formed(),
            final(self)@.color_at(x as int, y as int) == old(self)@.stored(color),
            forall|cx: int, cy: int|
                old(self)@.contains(cx, cy) && (cx != x || cy != y)
                    ==> #[trigger] final(self)@.color_at(cx, cy) == old(self)@.color_at(cx, cy),
    {
        let mut taken = PixelBuffer {
            width: 0,
            height: 0,
            layout: ColorLayout::Rgb,
            data: Vec::new(),
        };
        core::mem::swap(self, &mut taken);
        *self = taken.with_pixel(x, y, color);
    }

    /// The picture with the pixel in column `x` of row `y` overwritten.
    fn with_pixel(self, x: u32, y: u32, color: Rgba) -> (changed: PixelBuffer)
        requires
            self@.contains(x as int, y as int),
        ensures
            changed@.width == self@.width,
            changed@.height == self@.height,
            changed@.layout == self@.layout,
            changed@.well_formed(),
            changed@.color_at(x as int, y as int) == self@.stored(color),
            forall|cx: int, cy: int|
                self@.contains(cx, cy) && (cx != x || cy != y) ==> #[trigger] changed@.color_at(
                    cx,
                    cy,
                ) == self@.color_at(cx, cy),
    {
        proof {
            use_type_invariant(&self);
            lemma_offset_in_bounds(self@, x as int, y as int);
        }
        let at: usize = self.pixel_start(x, y);
        let width = self.width;
        let height = self.height;
        let layout = self.layout;
        let mut data = self.data;
        data.set(at, color.r);
        data.set(at + 1, color.g);
        data.set(at + 2, color.b);
        match layout {
            ColorLayout::Rgb => {},
            ColorLayout::Rgba => {
                data.set(at + 3, color.a);
            },
        }
        let changed = PixelBuffer { width, height, layout, data };
        proof {
            assert forall|cx: int, cy: int|
                self@.contains(cx, cy) && (cx != x || cy != y) implies #[trigger] changed@.color_at(
                cx,
                cy,
            ) == self@.color_at(cx, cy) by {
                lemma_cells_differ(self@, cx, cy, x as int, y as int);
                lemma_offset_in_bounds(self@, cx, cy);
            }
        }
        changed
    }

    /// The same picture with four channels per pixel; a picture without
    /// alpha becomes opaque everywhere.
    pub fn to_rgba(&self) -> (rgba: PixelBuffer)
        ensures
            self@.well_formed(),
            rgba@.well_formed(),
            rgba@ == self@.as_rgba(),
    {
        proof {
            use_type_invariant(self);
        }
        let channels = self.layout.channels();
        let count: usize = self.data.len() / channels;
        assert(count == self@.pixel_count()) by (nonlinear_arith)
            requires
                count == (self.data.len() as int) / (channels as int),
                self.data.len() == self@.pixel_count() * channels,
                channels > 0,
        ;
        let mut data: Vec<u8> = Vec::new();
        let mut index: usize = 0;
        while index < count
            invariant
                index <= count,
                count == self@.pixel_count(),
                channels == self@.layout.spec_channels(),
                self.data.len() == count * channels,
                data@.len() == index * 4,
                forall|i: int|
                    0 <= i < data@.len() ==> #[trigger] data@[i] == self@.pixel(i / 4).channel(
                        i % 4,
                    ),
            decreases count - index,
        {
            assert((index + 1) * channels <= count * channels) by (nonlinear_arith)
                requires
                    index + 1 <= count,
                    channels > 0,
            ;
            assert(index * channels + channels == (index + 1) * channels) by (nonlinear_arith);
            let at: usize = index * channels;
            let alpha: u8 = match self.layout {
                ColorLayout::Rgb => 255,
                ColorLayout::Rgba => self.data[at + 3],
            };
            data.push(self.data[at]);
            data.push(self.data[at + 1]);
            data.push(self.data[at + 2]);
            data.push(alpha);
            index += 1;
        }
        assert(data@ =~= self@.rgba_bytes());
        PixelBuffer { width: self.width, height: self.height, layout: ColorLayout::Rgba, data }
    }
}

} // verus!
