use chinenshichanaka::{
    convert, painted_or_failure, rasterize, reduce_colors, render_svg_to_image, ColorLayout,
    RenderError, Rgba,
};
use resvg::tiny_skia::Pixmap;
use resvg::usvg::{Options, Tree};
use std::io::Cursor;

fn assert_is_icon_of_32(output_buffer: &[u8]) {
    let guess: image::ImageFormat =
        image::guess_format(output_buffer).expect("Failed to guess output image format");
    assert_eq!(guess, image::ImageFormat::Ico);

    let reader = image::ImageReader::new(Cursor::new(output_buffer))
        .with_guessed_format()
        .expect("Cursor io never fails");
    assert_eq!(reader.format(), Some(image::ImageFormat::Ico));

    let dimensions: (u32, u32) = reader
        .into_dimensions()
        .expect("Failed to get output image dimensions");
    assert_eq!(dimensions, (32, 32));
}

#[test]
fn test_convert_with_valid_svg_input() {
    let svg_content = r#"
        <svg width="100" height="100" xmlns="http://www.w3.org/2000/svg">
            <rect width="100" height="100" style="fill:rgb(0,0,255);"/>
        </svg>
        "#;
    let input_buffer = svg_content.as_bytes();

    let input_image = render_svg_to_image(input_buffer).expect("Failed to parse SVG");
    let input_image = reduce_colors(&input_image, 16).unwrap();

    let output_buffer: Vec<u8> = convert(input_image).unwrap();
    assert_is_icon_of_32(&output_buffer);
}

#[test]
fn test_convert_with_large_svg_input() {
    let large_svg_content = r#"
        <svg width="1000" height="1000" xmlns="http://www.w3.org/2000/svg">
            <rect width="1000" height="1000" style="fill:rgb(255,0,0);"/>
        </svg>
        "#;
    let input_buffer = large_svg_content.as_bytes();

    let input_image = render_svg_to_image(input_buffer).expect("Failed to parse SVG");
    let input_image = reduce_colors(&input_image, 16).unwrap();

    let output_buffer: Vec<u8> = convert(input_image).unwrap();
    assert_is_icon_of_32(&output_buffer);
}

#[test]
fn test_convert_with_svg_with_transparency() {
    let transparent_svg_content = r#"
        <svg width="100" height="100" xmlns="http://www.w3.org/2000/svg">
            <rect width="100" height="100" style="fill:rgb(0,0,255);fill-opacity:0.5;"/>
        </svg>
        "#;
    let input_buffer = transparent_svg_content.as_bytes();

    let input_image = render_svg_to_image(input_buffer).expect("Failed to parse SVG");
    let input_image = reduce_colors(&input_image, 32).unwrap();

    let output_buffer: Vec<u8> = convert(input_image).unwrap();
    assert_is_icon_of_32(&output_buffer);
}

#[test]
#[should_panic(expected = "Failed to parse SVG")]
fn test_render_svg_to_image_with_invalid_svg() {
    let invalid_svg = b"<svg><invalid></svg>";
    render_svg_to_image(invalid_svg).expect("Failed to parse SVG");
}

#[test]
#[should_panic(expected = "Failed to parse SVG")]
fn test_render_svg_to_image_with_malformed_svg() {
    let malformed_svg = b"not an svg at all";
    render_svg_to_image(malformed_svg).expect("Failed to parse SVG");
}

#[test]
#[should_panic(expected = "Failed to parse SVG")]
fn test_render_svg_to_image_with_empty_data() {
    let empty_data = b"";
    render_svg_to_image(empty_data).expect("Failed to parse SVG");
}

#[test]
fn test_render_svg_with_very_large_dimensions() {
    let large_svg = r#"
        <svg width="10000" height="10000" xmlns="http://www.w3.org/2000/svg">
            <rect width="10000" height="10000" style="fill:rgb(255,0,0);"/>
        </svg>
        "#;

    let result = render_svg_to_image(large_svg.as_bytes()).expect("Failed to parse SVG");
    assert_eq!(result.dimensions(), (32, 32));
}

#[test]
fn render_svg_to_image_reports_a_parse_failure() {
    assert_eq!(render_svg_to_image(b"<svg><invalid></svg>").unwrap_err(), RenderError::Parse);
    assert_eq!(render_svg_to_image(b"not an svg at all").unwrap_err(), RenderError::Parse);
    assert_eq!(render_svg_to_image(b"").unwrap_err(), RenderError::Parse);
    assert_eq!(render_svg_to_image(&[0xff, 0xfe, 0x00]).unwrap_err(), RenderError::Parse);
}

#[test]
fn render_svg_to_image_paints_the_document() {
    let svg = br#"<svg width="32" height="32" xmlns="http://www.w3.org/2000/svg"><rect width="32" height="32" style="fill:rgb(255,0,0);"/></svg>"#;
    let image = render_svg_to_image(svg).unwrap();
    assert_eq!(image.dimensions(), (32, 32));
    assert_eq!(image.layout(), ColorLayout::Rgba);
    assert_eq!(image.as_raw().len(), 32 * 32 * 4);
    assert_eq!(image.get_pixel(0, 0), Rgba { r: 255, g: 0, b: 0, a: 255 });
    assert_eq!(image.get_pixel(16, 16), Rgba { r: 255, g: 0, b: 0, a: 255 });
    assert_eq!(image.get_pixel(31, 31), Rgba { r: 255, g: 0, b: 0, a: 255 });
}

#[test]
fn render_svg_to_image_leaves_the_rest_transparent() {
    let svg = br#"<svg width="8" height="8" xmlns="http://www.w3.org/2000/svg"><rect width="8" height="8" fill="rgb(0,255,0)"/></svg>"#;
    let image = render_svg_to_image(svg).unwrap();
    assert_eq!(image.dimensions(), (32, 32));
    assert_eq!(image.get_pixel(2, 2), Rgba { r: 0, g: 255, b: 0, a: 255 });
    assert_eq!(image.get_pixel(20, 20), Rgba { r: 0, g: 0, b: 0, a: 0 });
}

#[test]
fn rasterize_paints_a_canvas_of_the_size_asked_for() {
    let svg = br#"<svg width="10" height="10" xmlns="http://www.w3.org/2000/svg"><rect width="10" height="10" fill="blue"/></svg>"#;
    let image = rasterize(svg, 64).unwrap();
    assert_eq!(image.dimensions(), (64, 64));
    assert_eq!(image.as_raw().len(), 64 * 64 * 4);
    assert_eq!(image.get_pixel(5, 5), Rgba { r: 0, g: 0, b: 255, a: 255 });
    let small = rasterize(svg, 1).unwrap();
    assert_eq!(small.dimensions(), (1, 1));
}

#[test]
fn rasterize_refuses_a_canvas_without_pixels() {
    let svg = br#"<svg width="10" height="10" xmlns="http://www.w3.org/2000/svg"/>"#;
    assert_eq!(rasterize(svg, 0).unwrap_err(), RenderError::EmptyCanvas);
    assert_eq!(rasterize(b"not an svg at all", 0).unwrap_err(), RenderError::EmptyCanvas);
}

#[test]
fn rasterize_refuses_a_canvas_that_is_too_wide() {
    let svg = br#"<svg width="10" height="10" xmlns="http://www.w3.org/2000/svg"/>"#;
    assert_eq!(rasterize(svg, 0x2000_0000).unwrap_err(), RenderError::Canvas);
    assert_eq!(rasterize(svg, u32::MAX).unwrap_err(), RenderError::Canvas);
}

#[test]
fn painted_or_failure_reports_refused_markup() {
    for markup in [&b"<svg><invalid></svg>"[..], &b"not an svg at all"[..], &b""[..]] {
        let parsed = Tree::from_data(markup, &Options::default());
        assert!(parsed.is_err());
        let canvas = Pixmap::new(32, 32).unwrap();
        assert_eq!(painted_or_failure(parsed, canvas, 32).unwrap_err(), RenderError::Parse);
    }
}

#[test]
fn painted_or_failure_paints_accepted_markup() {
    let svg = br#"<svg width="4" height="4" xmlns="http://www.w3.org/2000/svg"><rect width="4" height="2" fill="rgb(0,255,0)"/></svg>"#;
    let parsed = Tree::from_data(svg, &Options::default());
    let image = painted_or_failure(parsed, Pixmap::new(4, 4).unwrap(), 4).unwrap();
    assert_eq!(image.dimensions(), (4, 4));
    assert_eq!(image.layout(), ColorLayout::Rgba);
    assert_eq!(image.get_pixel(1, 1), Rgba { r: 0, g: 255, b: 0, a: 255 });
    assert_eq!(image.get_pixel(1, 3), Rgba { r: 0, g: 0, b: 0, a: 0 });
}

#[test]
fn painted_or_failure_refuses_a_canvas_of_another_size() {
    let svg = br#"<svg width="4" height="4" xmlns="http://www.w3.org/2000/svg"/>"#;
    let parsed = Tree::from_data(svg, &Options::default());
    assert_eq!(
        painted_or_failure(parsed, Pixmap::new(4, 5).unwrap(), 4).unwrap_err(),
        RenderError::Canvas
    );
    let refused = Tree::from_data(b"no markup", &Options::default());
    assert_eq!(
        painted_or_failure(refused, Pixmap::new(4, 5).unwrap(), 4).unwrap_err(),
        RenderError::Parse
    );
}
