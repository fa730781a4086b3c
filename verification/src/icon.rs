//! The icon container: a directory with one entry, followed by the picture
//! it describes as an uncompressed bitmap of 24 bits per pixel.

use crate::buffer::PixelBuffer;
use crate::pixel::{ColorLayout, ImageModel, Rgba};
use vstd::arithmetic::div_mod::lemma_fundamental_div_mod_converse;
use vstd::prelude::*;

verus! {

/// The length of the header and the single directory entry.
pub const DIRECTORY_LENGTH: usize = 22;

/// The length of the header of the bitmap.
pub const BITMAP_HEADER_LENGTH: usize = 40;

/// The largest width and height that a directory entry can declare.
pub const MAX_ICON_SIZE: u32 = 256;

/// The bit depth of a picture of three 8-bit channels.
pub const TRUE_COLOR_BITS: u16 = 24;

/// Why a picture could not be packaged.
#[derive(Clone, Copy, Debug, PartialEq, Eq, Structural)]
pub enum ConvertError {
    /// The picture does not have exactly three channels.
    ChannelMismatch,
    /// Width or height is zero or larger than `MAX_ICON_SIZE`.
    InvalidDimensions,
}

/// Whether a picture of these dimensions can be declared in a directory
/// entry.
pub open spec fn icon_sized(width: u32, height: u32) -> bool {
    1 <= width <= MAX_ICON_SIZE && 1 <= height <= MAX_ICON_SIZE
}

/// A 16-bit field, least significant byte first.
pub open spec fn le16(value: u16) -> Seq<u8> {
    seq![(value % 256) as u8, (value / 256) as u8]
}

/// A 32-bit field, least significant byte first.
pub open spec fn le32(value: u32) -> Seq<u8> {
    seq![
        (value % 256) as u8,
        (value / 256 % 256) as u8,
        (value / 65536 % 256) as u8,
        (value / 16777216) as u8,
    ]
}

/// The byte that declares a width or a height: 256 is written as 0.
pub open spec fn size_byte(size: u32) -> u8 {
    (size % 256) as u8
}

/// The number of bytes of one row of colours: three per pixel, filled up
/// to a multiple of four.
pub open spec fn row_stride(width: u32) -> int {
    (width * 3 + 3) / 4 * 4
}

/// The number of bytes of one row of the transparency mask: one bit per
/// pixel, filled up to a multiple of four bytes.
pub open spec fn mask_stride(width: u32) -> int {
    (width + 31) / 32 * 4
}

/// The length of the bitmap of a `width` x `height` picture: its header,
/// its rows of colours and its mask.
pub open spec fn payload_length(width: u32, height: u32) -> int {
    BITMAP_HEADER_LENGTH + height * row_stride(width) + height * mask_stride(width)
}

/// The header of a container with one picture of `width` x `height` pixels
/// in true colour whose bitmap takes `payload_length` bytes: the reserved
/// field, the type (icon), the number of entries, and the entry with the
/// dimensions, an empty palette, a reserved byte, one colour plane, the
/// bit depth, the length of the bitmap and the offset at which it starts.
pub open spec fn icon_directory(width: u32, height: u32, payload_length: u32) -> Seq<u8> {
    le16(0) + le16(1) + le16(1) + seq![size_byte(width), size_byte(height), 0u8, 0u8] + le16(1)
        + le16(TRUE_COLOR_BITS) + le32(payload_length) + le32(DIRECTORY_LENGTH as u32)
}

/// The header of the bitmap: its own length, the width, twice the height
/// (colours and mask count as one picture), one plane, the bit depth, no
/// compression, the length of what follows, and four fields left at zero
/// (resolution and palette).
pub open spec fn bitmap_header(width: u32, height: u32) -> Seq<u8> {
    le32(BITMAP_HEADER_LENGTH as u32) + le32(width) + le32((2 * height) as u32) + le16(1) + le16(
        TRUE_COLOR_BITS,
    ) + le32(0) + le32((payload_length(width, height) - BITMAP_HEADER_LENGTH) as u32) + le32(0)
        + le32(0) + le32(0) + le32(0)
}

/// The byte at position `index` of the rows of colours: rows run from the
/// bottom of the picture to its top, a pixel is stored as blue, green, red,
/// and the bytes that fill a row up are zero.
pub open spec fn color_byte(image: ImageModel, index: int) -> u8 {
    let stride = row_stride(image.width);
    let row = index / stride;
    let column = index % stride;
    if column < 3 * image.width {
        let color = image.color_at(column / 3, image.height - 1 - row);
        if column % 3 == 0 {
            color.b
        } else if column % 3 == 1 {
            color.g
        } else {
            color.r
        }
    } else {
        0
    }
}

/// The rows of colours of a picture.
pub open spec fn color_rows(image: ImageModel) -> Seq<u8> {
    Seq::new((image.height * row_stride(image.width)) as nat, |index: int| color_byte(image, index))
}

/// The transparency mask of a picture that is opaque everywhere: all bits
/// are zero.
pub open spec fn mask_rows(width: u32, height: u32) -> Seq<u8> {
    Seq::new((height * mask_stride(width)) as nat, |index: int| 0u8)
}

/// The container of a picture: the directory, the header of the bitmap, the
/// rows of colours and the mask. Nothing is compressed and there is no
/// palette.
pub open spec fn icon_file(image: ImageModel) -> Seq<u8> {
    icon_directory(image.width, image.height, payload_length(image.width, image.height) as u32)
        + bitmap_header(image.width, image.height) + color_rows(image) + mask_rows(
        image.width,
        image.height,
    )
}

/// Whether `bytes` is a container that holds exactly one picture of
/// `width` x `height` pixels in true colour: the directory, then the
/// bitmap up to the end.
pub open spec fn is_icon_container(bytes: Seq<u8>, width: u32, height: u32) -> bool {
    &&& bytes.len() >= DIRECTORY_LENGTH
    &&& bytes.subrange(0, DIRECTORY_LENGTH as int) == icon_directory(
        width,
        height,
        ((bytes.len() - DIRECTORY_LENGTH) % 0x1_0000_0000) as u32,
    )
}

/// The colour that a reader of the bitmap finds at `(x, y)`.
pub open spec fn bitmap_color_at(bytes: Seq<u8>, width: u32, height: u32, x: int, y: int) -> Rgba {
    let at = DIRECTORY_LENGTH + BITMAP_HEADER_LENGTH + (height - 1 - y) * row_stride(width) + 3 * x;
    Rgba { r: bytes[at + 2], g: bytes[at + 1], b: bytes[at], a: 255 }
}

/// What a reader learns from one entry of a container's directory.
pub struct IconEntry {
    pub width: int,
    pub height: int,
    pub bits_per_pixel: int,
    pub data_length: int,
    pub data_offset: int,
}

/// The 16-bit field that starts at `at`.
pub open spec fn u16_at(bytes: Seq<u8>, at: int) -> int {
    bytes[at] + 256 * bytes[at + 1]
}

/// The 32-bit field that starts at `at`.
pub open spec fn u32_at(bytes: Seq<u8>, at: int) -> int {
    bytes[at] + 256 * bytes[at + 1] + 65536 * bytes[at + 2] + 16777216 * bytes[at + 3]
}

/// The width or height that a size byte declares.
pub open spec fn declared_size(byte: u8) -> int {
    if byte == 0 {
        256
    } else {
        byte as int
    }
}

/// The number of entries that the header declares.
pub open spec fn entry_count(bytes: Seq<u8>) -> int {
    u16_at(bytes, 4)
}

/// The entry at position `index` of the directory.
pub open spec fn entry_at(bytes: Seq<u8>, index: int) -> IconEntry {
    let at = 6 + 16 * index;
    IconEntry {
        width: declared_size(bytes[at]),
        height: declared_size(bytes[at + 1]),
        bits_per_pixel: u16_at(bytes, at + 6),
        data_length: u32_at(bytes, at + 8),
        data_offset: u32_at(bytes, at + 12),
    }
}

/// Whether `bytes` reads as an icon container: the reserved field is zero,
/// the type is that of an icon, the directory is complete, and the data of
/// every entry lies inside the file.
pub open spec fn reads_as_icon(bytes: Seq<u8>) -> bool {
    &&& bytes.len() >= 6
    &&& u16_at(bytes, 0) == 0
    &&& u16_at(bytes, 2) == 1
    &&& bytes.len() >= 6 + 16 * entry_count(bytes)
    &&& forall|index: int|
        0 <= index < entry_count(bytes) ==> (#[trigger] entry_at(bytes, index)).data_offset
            + entry_at(bytes, index).data_length <= bytes.len()
}

/// The directory that a reader finds in `bytes`, if they read as an icon
/// container.
pub open spec fn read_directory(bytes: Seq<u8>) -> Option<Seq<IconEntry>> {
    if reads_as_icon(bytes) {
        Some(Seq::new(entry_count(bytes) as nat, |index: int| entry_at(bytes, index)))
    } else {
        None
    }
}

/// A container with one picture reads back as exactly one entry, which
/// declares the picture's width and height, true colour, and the payload
/// that follows the directory.
pub proof fn lemma_container_reads_back(bytes: Seq<u8>, width: u32, height: u32)
    requires
        icon_sized(width, height),
        is_icon_container(bytes, width, height),
    ensures
        read_directory(bytes) == Some(
            seq![
                IconEntry {
                    width: width as int,
                    height: height as int,
                    bits_per_pixel: TRUE_COLOR_BITS as int,
                    data_length: (bytes.len() - DIRECTORY_LENGTH) % 0x1_0000_0000,
                    data_offset: DIRECTORY_LENGTH as int,
                },
            ],
        ),
{
    let payload_length = ((bytes.len() - DIRECTORY_LENGTH) % 0x1_0000_0000) as u32;
    let directory = icon_directory(width, height, payload_length);
    assert forall|i: int| 0 <= i < 22 implies bytes[i] == directory[i] by {
        assert(bytes.subrange(0, 22)[i] == bytes[i]);
    }
    assert(directory.len() == 22);
    assert(entry_count(bytes) == 1);
    let entry = entry_at(bytes, 0);
    assert(entry.width == width);
    assert(entry.height == height);
    assert(entry.bits_per_pixel == 24);
    assert(entry.data_length == payload_length);
    assert(entry.data_offset == 22);
    assert(reads_as_icon(bytes));
    assert(read_directory(bytes).unwrap() =~= seq![entry]);
}

/// The strides of a picture that a directory entry can declare are small,
/// and so is its bitmap.
pub proof fn lemma_payload_bounds(width: u32, height: u32)
    requires
        icon_sized(width, height),
    ensures
        3 * width <= row_stride(width) <= 3 * width + 3,
        4 <= row_stride(width) <= 768,
        4 <= mask_stride(width) <= 32,
        0 <= height * row_stride(width) <= 256 * 768,
        0 <= height * mask_stride(width) <= 256 * 32,
        BITMAP_HEADER_LENGTH < payload_length(width, height) <= 204840,
{
    let h = height as int;
    let s = row_stride(width);
    let m = mask_stride(width);
    assert(h * s <= 256 * 768 && h * s >= s) by (nonlinear_arith)
        requires
            1 <= h <= 256,
            0 <= s <= 768,
    ;
    assert(h * m <= 256 * 32 && h * m >= m) by (nonlinear_arith)
        requires
            1 <= h <= 256,
            0 <= m <= 32,
    ;
}

/// Where the rows of colours hold the pixel at `column / 3` of the row
/// that is `row` rows above the bottom, and where they hold filling.
pub proof fn lemma_color_byte(image: ImageModel, row: int, column: int)
    requires
        image.width > 0,
        0 <= row < image.height,
        0 <= column < row_stride(image.width),
    ensures
        0 <= row * row_stride(image.width) + column < image.height * row_stride(image.width),
        color_byte(image, row * row_stride(image.width) + column) == if column < 3 * image.width {
            let color = image.color_at(column / 3, image.height - 1 - row);
            if column % 3 == 0 {
                color.b
            } else if column % 3 == 1 {
                color.g
            } else {
                color.r
            }
        } else {
            0
        },
{
    let stride = row_stride(image.width);
    let h = image.height as int;
    lemma_fundamental_div_mod_converse(row * stride + column, stride, row, column);
    assert(0 <= row * stride && row * stride + stride <= h * stride) by (nonlinear_arith)
        requires
            0 <= row,
            row + 1 <= h,
            stride > 0,
    ;
}

/// The container of a picture starts with the directory that declares the
/// picture, and its bitmap reaches to the end.
pub proof fn lemma_icon_file_is_container(image: ImageModel)
    requires
        icon_sized(image.width, image.height),
    ensures
        icon_file(image).len() == DIRECTORY_LENGTH + payload_length(image.width, image.height),
        is_icon_container(icon_file(image), image.width, image.height),
{
    lemma_payload_bounds(image.width, image.height);
    let length = payload_length(image.width, image.height) as u32;
    let directory = icon_directory(image.width, image.height, length);
    assert(directory.len() == 22);
    assert(bitmap_header(image.width, image.height).len() == 40);
    assert(icon_file(image).subrange(0, 22) =~= directory);
}

/// A reader of the bitmap finds every pixel of the picture, opaque.
pub proof fn lemma_icon_file_shows_the_picture(image: ImageModel, x: int, y: int)
    requires
        icon_sized(image.width, image.height),
        image.contains(x, y),
    ensures
        bitmap_color_at(icon_file(image), image.width, image.height, x, y) == image.color_at(
            x,
            y,
        ).opaque(),
{
    lemma_payload_bounds(image.width, image.height);
    let row = image.height - 1 - y;
    let stride = row_stride(image.width);
    let length = payload_length(image.width, image.height) as u32;
    let front = icon_directory(image.width, image.height, length) + bitmap_header(
        image.width,
        image.height,
    );
    assert(front.len() == 62);
    lemma_color_byte(image, row, 3 * x);
    lemma_color_byte(image, row, 3 * x + 1);
    lemma_color_byte(image, row, 3 * x + 2);
    let at = row * stride + 3 * x;
    let file = icon_file(image);
    assert(file[62 + at] == color_rows(image)[at]);
    assert(file[62 + at + 1] == color_rows(image)[at + 1]);
    assert(file[62 + at + 2] == color_rows(image)[at + 2]);
}

/// A reader finds one entry in the container of a picture, which declares
/// the picture and the bitmap that follows the directory.
pub proof fn lemma_icon_file_declares_the_picture(image: ImageModel)
    requires
        icon_sized(image.width, image.height),
    ensures
        is_icon_container(icon_file(image), image.width, image.height),
        read_directory(icon_file(image)) == Some(
            seq![
                IconEntry {
                    width: image.width as int,
                    height: image.height as int,
                    bits_per_pixel: TRUE_COLOR_BITS as int,
                    data_length: payload_length(image.width, image.height),
                    data_offset: DIRECTORY_LENGTH as int,
                },
            ],
        ),
{
    lemma_payload_bounds(image.width, image.height);
    lemma_icon_file_is_container(image);
    let file = icon_file(image);
    lemma_container_reads_back(file, image.width, image.height);
    assert((file.len() - DIRECTORY_LENGTH) % 0x1_0000_0000 == payload_length(
        image.width,
        image.height,
    ));
}

/// A reader of the bitmap of a picture without alpha finds every pixel in
/// its place.
pub proof fn lemma_icon_file_keeps_the_pixels(image: ImageModel)
    requires
        icon_sized(image.width, image.height),
        image.layout == ColorLayout::Rgb,
    ensures
        forall|x: int, y: int|
            image.contains(x, y) ==> #[trigger] bitmap_color_at(
                icon_file(image),
                image.width,
                image.height,
                x,
                y,
            ) == image.color_at(x, y),
{
    assert forall|x: int, y: int| image.contains(x, y) implies #[trigger] bitmap_color_at(
        icon_file(image),
        image.width,
        image.height,
        x,
        y,
    ) == image.color_at(x, y) by {
        lemma_icon_file_shows_the_picture(image, x, y);
    }
}

/// Appends a 16-bit field.
fn push_le16(bytes: &mut Vec<u8>, value: u16)
    ensures
        final(bytes)@ == old(bytes)@ + le16(value),
{
    bytes.push((value % 256) as u8);
    bytes.push((value / 256) as u8);
    assert(bytes@ =~= old(bytes)@ + le16(value));
}

/// Appends a 32-bit field.
fn push_le32(bytes: &mut Vec<u8>, value: u32)
    ensures
        final(bytes)@ == old(bytes)@ + le32(value),
{
    bytes.push((value % 256) as u8);
    bytes.push((value / 256 % 256) as u8);
    bytes.push((value / 65536 % 256) as u8);
    bytes.push((value / 16777216) as u8);
    assert(bytes@ =~= old(bytes)@ + le32(value));
}

/// Writes the directory.
fn directory_bytes(width: u32, height: u32, payload_length: u32) -> (bytes: Vec<u8>)
    ensures
        bytes@ == icon_directory(width, height, payload_length),
{
    let mut bytes: Vec<u8> = Vec::new();
    push_le16(&mut bytes, 0);
    push_le16(&mut bytes, 1);
    push_le16(&mut bytes, 1);
    let ghost front = bytes@;
    bytes.push((width % 256) as u8);
    bytes.push((height % 256) as u8);
    bytes.push(0);
    bytes.push(0);
    assert(bytes@ =~= front + seq![size_byte(width), size_byte(height), 0u8, 0u8]);
    push_le16(&mut bytes, 1);
    push_le16(&mut bytes, TRUE_COLOR_BITS);
    push_le32(&mut bytes, payload_length);
    push_le32(&mut bytes, DIRECTORY_LENGTH as u32);
    assert(bytes@ =~= icon_directory(width, height, payload_length));
    bytes
}

/// Writes the header of the bitmap.
fn bitmap_header_bytes(width: u32, height: u32, payload_length: u32) -> (bytes: Vec<u8>)
    requires
        icon_sized(width, height),
        payload_length == self::payload_length(width, height),
    ensures
        bytes@ == bitmap_header(width, height),
{
    proof {
        lemma_payload_bounds(width, height);
    }
    let mut bytes: Vec<u8> = Vec::new();
    push_le32(&mut bytes, BITMAP_HEADER_LENGTH as u32);
    push_le32(&mut bytes, width);
    push_le32(&mut bytes, 2 * height);
    push_le16(&mut bytes, 1);
    push_le16(&mut bytes, TRUE_COLOR_BITS);
    push_le32(&mut bytes, 0);
    push_le32(&mut bytes, payload_length - BITMAP_HEADER_LENGTH as u32);
    push_le32(&mut bytes, 0);
    push_le32(&mut bytes, 0);
    push_le32(&mut bytes, 0);
    push_le32(&mut bytes, 0);
    assert(bytes@ =~= bitmap_header(width, height));
    bytes
}

/// Writes the rows of colours, bottom row first.
fn color_rows_bytes(img: &PixelBuffer) -> (rows: Vec<u8>)
    requires
        icon_sized(img@.width, img@.height),
    ensures
        rows@ == color_rows(img@),
{
    let (width, height) = img.dimensions();
    proof {
        lemma_payload_bounds(width, height);
    }
    let filled: usize = width as usize * 3;
    let stride: usize = (filled + 3) / 4 * 4;
    let mut rows: Vec<u8> = Vec::new();
    let mut row: u32 = 0;
    while row < height
        invariant
            row <= height,
            width == img@.width,
            height == img@.height,
            icon_sized(width, height),
            filled == 3 * width,
            stride == row_stride(width),
            rows@.len() == row * stride,
            forall|i: int| 0 <= i < rows@.len() ==> #[trigger] rows@[i] == color_byte(img@, i),
        decreases height - row,
    {
        let ghost base = rows@.len() as int;
        let y: u32 = height - 1 - row;
        let mut x: u32 = 0;
        while x < width
            invariant
                x <= width,
                row < height,
                y == height - 1 - row,
                width == img@.width,
                height == img@.height,
                icon_sized(width, height),
                filled == 3 * width,
                stride == row_stride(width),
                filled <= stride,
                base == row * stride,
                rows@.len() == base + 3 * x,
                forall|i: int| 0 <= i < rows@.len() ==> #[trigger] rows@[i] == color_byte(img@, i),
            decreases width - x,
        {
            let color = img.get_pixel(x, y);
            proof {
                lemma_color_byte(img@, row as int, 3 * x);
                lemma_color_byte(img@, row as int, 3 * x + 1);
                lemma_color_byte(img@, row as int, 3 * x + 2);
            }
            rows.push(color.b);
            rows.push(color.g);
            rows.push(color.r);
            x += 1;
        }
        let mut column: usize = filled;
        while column < stride
            invariant
                filled <= column <= stride,
                row < height,
                width == img@.width,
                height == img@.height,
                icon_sized(width, height),
                filled == 3 * width,
                stride == row_stride(width),
                base == row * stride,
                rows@.len() == base + column,
                forall|i: int| 0 <= i < rows@.len() ==> #[trigger] rows@[i] == color_byte(img@, i),
            decreases stride - column,
        {
            proof {
                lemma_color_byte(img@, row as int, column as int);
            }
            rows.push(0);
            column += 1;
        }
        assert(base + stride == (row + 1) * stride) by (nonlinear_arith)
            requires
                base == row * stride,
        ;
        row += 1;
    }
    assert(rows@ =~= color_rows(img@));
    rows
}

/// Writes the mask of a picture that is opaque everywhere.
fn mask_rows_bytes(width: u32, height: u32) -> (rows: Vec<u8>)
    requires
        icon_sized(width, height),
    ensures
        rows@ == mask_rows(width, height),
{
    proof {
        lemma_payload_bounds(width, height);
    }
    let stride: usize = (width as usize + 31) / 32 * 4;
    let length: usize = height as usize * stride;
    let mut rows: Vec<u8> = Vec::new();
    let mut at: usize = 0;
    while at < length
        invariant
            at <= length,
            rows@.len() == at,
            forall|i: int| 0 <= i < rows@.len() ==> #[trigger] rows@[i] == 0,
        decreases length - at,
    {
        rows.push(0);
        at += 1;
    }
    assert(rows@ =~= mask_rows(width, height));
    rows
}

/// Packages a picture of three channels as an icon container with a single
/// entry, whose bitmap holds the pixels as they are: 24 bits each, no
/// palette, no compression. A reader finds one entry in it, which declares
/// the picture's width and height, and every pixel in its place.
///
/// The picture is neither resized nor recoloured. A picture with alpha is
/// refused, and so is one whose width or height is zero or larger than
/// `MAX_ICON_SIZE`.
pub fn convert(img: PixelBuffer) -> (encoded: Result<Vec<u8>, ConvertError>)
    ensures
        match encoded {
            Ok(bytes) => {
                &&& img@.layout == ColorLayout::Rgb
                &&& icon_sized(img@.width, img@.height)
                &&& bytes@ == icon_file(img@)
                &&& is_icon_container(bytes@, img@.width, img@.height)
                &&& read_directory(bytes@) == Some(
                    seq![
                        IconEntry {
                            width: img@.width as int,
                            height: img@.height as int,
                            bits_per_pixel: TRUE_COLOR_BITS as int,
                            data_length: payload_length(img@.width, img@.height),
                            data_offset: DIRECTORY_LENGTH as int,
                        },
                    ],
                )
                &&& forall|x: int, y: int|
                    img@.contains(x, y) ==> #[trigger] bitmap_color_at(
                        bytes@,
                        img@.width,
                        img@.height,
                        x,
                        y,
                    ) == img@.color_at(x, y)
            },
            Err(ConvertError::ChannelMismatch) => img@.layout != ColorLayout::Rgb,
            Err(ConvertError::InvalidDimensions) => {
                &&& img@.layout == ColorLayout::Rgb
                &&& !icon_sized(img@.width, img@.height)
            },
        },
{
    match img.layout() {
        ColorLayout::Rgb => {},
        ColorLayout::Rgba => {
            return Err(ConvertError::ChannelMismatch);
        },
    }
    let (width, height) = img.dimensions();
    if width < 1 || width > MAX_ICON_SIZE || height < 1 || height > MAX_ICON_SIZE {
        return Err(ConvertError::InvalidDimensions);
    }
    proof {
        lemma_payload_bounds(width, height);
        lemma_icon_file_declares_the_picture(img@);
        lemma_icon_file_keeps_the_pixels(img@);
    }
    let row_bytes: u32 = (width * 3 + 3) / 4 * 4;
    let mask_bytes: u32 = (width + 31) / 32 * 4;
    let payload: u32 = BITMAP_HEADER_LENGTH as u32 + height * row_bytes + height * mask_bytes;
    let mut bytes = directory_bytes(width, height, payload);
    let mut header = bitmap_header_bytes(width, height, payload);
    let mut colors = color_rows_bytes(&img);
    let mut mask = mask_rows_bytes(width, height);
    bytes.append(&mut header);
    bytes.append(&mut colors);
    bytes.append(&mut mask);
    Ok(bytes)
}

} // verus!
