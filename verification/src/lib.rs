//! Turns a picture into a small square icon: the picture is fitted into a
//! square canvas, its colours are reduced to a bounded palette, and the
//! result is packaged as a single-entry icon container.

pub mod buffer;
pub mod canvas;
pub mod fit;
pub mod geometry;
pub mod icon;
pub mod path;
pub mod pipeline;
pub mod pixel;
pub mod quantize;
pub mod svg;

pub use buffer::PixelBuffer;
pub use canvas::{create_square_image, get_top_left_color, paste_resized_image};
pub use fit::{center_on_canvas, resize_image, resize_to_square, FitError};
pub use geometry::calculate_size;
pub use icon::{convert, ConvertError};
pub use path::{has_suffix, input_kind, is_icon_path, InputKind};
pub use pipeline::{
    decode_image, decoded_picture, load_picture, make_icon, rendered_or_failure, IconConfig,
    IconError,
};
pub use pixel::{ColorLayout, Rgba};
pub use quantize::{apply_palette, reduce_colors, QuantizeError};
pub use svg::{painted_or_failure, rasterize, render_svg_to_image, RenderError};
