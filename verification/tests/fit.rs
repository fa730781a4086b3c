use chinenshichanaka::{
    center_on_canvas, create_square_image, get_top_left_color, paste_resized_image, resize_image,
    resize_to_square, ColorLayout, FitError, PixelBuffer, Rgba,
};

const RED: Rgba = Rgba { r: 255, g: 0, b: 0, a: 255 };
const BLUE: Rgba = Rgba { r: 0, g: 0, b: 255, a: 255 };
const WHITE: Rgba = Rgba { r: 255, g: 255, b: 255, a: 255 };
const BLACK: Rgba = Rgba { r: 0, g: 0, b: 0, a: 255 };

// A transparent picture whose top-left pixel alone has the given colour.
fn create_test_image(width: u32, height: u32, color: Rgba) -> PixelBuffer {
    let clear = Rgba { r: 0, g: 0, b: 0, a: 0 };
    let mut image = PixelBuffer::from_pixel(width, height, ColorLayout::Rgba, clear);
    if width > 0 && height > 0 {
        image.put_pixel(0, 0, color);
    }
    image
}

#[test]
fn test_get_top_left_color() {
    let input_image = PixelBuffer::from_pixel(1, 1, ColorLayout::Rgb, RED);
    assert_eq!(get_top_left_color(&input_image), Rgba { r: 255, g: 0, b: 0, a: 255 });
}

#[test]
fn test_create_square_image() {
    let background_color = Rgba { r: 255, g: 0, b: 0, a: 255 };
    let square_image = create_square_image(200, background_color);
    assert_eq!(square_image.dimensions(), (200, 200));
    assert_eq!(square_image.get_pixel(0, 0), Rgba { r: 255, g: 0, b: 0, a: 255 });
}

#[test]
fn test_resize_image() {
    let input_image = PixelBuffer::from_pixel(1, 1, ColorLayout::Rgb, RED);
    let resized_image = resize_image(&input_image, 100, 100).unwrap();
    assert_eq!(resized_image.dimensions(), (100, 100));
}

#[test]
fn test_paste_resized_image() {
    let mut square_image = PixelBuffer::from_pixel(200, 200, ColorLayout::Rgb, WHITE);
    let resized_image = PixelBuffer::from_pixel(100, 100, ColorLayout::Rgb, BLACK);
    paste_resized_image(&mut square_image, &resized_image, 50, 50);
    assert_eq!(square_image.get_pixel(50, 50), Rgba { r: 0, g: 0, b: 0, a: 255 });
}

#[test]
fn test_resize_to_square() {
    let input_image = PixelBuffer::from_pixel(1, 1, ColorLayout::Rgb, RED);
    let result = resize_to_square(&input_image, 200).unwrap();
    assert_eq!(result.dimensions(), (200, 200));
    assert_eq!(result.get_pixel(50, 50), Rgba { r: 255, g: 0, b: 0, a: 255 });
}

#[test]
fn test_get_top_left_color_with_minimal_image() {
    let minimal_image = create_test_image(1, 1, Rgba { r: 128, g: 64, b: 32, a: 255 });
    let color = get_top_left_color(&minimal_image);
    assert_eq!(color, Rgba { r: 128, g: 64, b: 32, a: 255 });
}

#[test]
fn test_resize_to_square_with_zero_output_size() {
    let input_image = create_test_image(100, 100, RED);
    let result = resize_to_square(&input_image, 0).unwrap();
    assert_eq!(result.dimensions(), (0, 0));
}

#[test]
fn test_resize_to_square_with_very_large_output_size() {
    let input_image = create_test_image(10, 10, RED);
    let result = resize_to_square(&input_image, 1000).unwrap();
    assert_eq!(result.dimensions(), (1000, 1000));
}

#[test]
fn create_square_image_fills_the_whole_canvas() {
    let canvas = create_square_image(3, Rgba { r: 1, g: 2, b: 3, a: 77 });
    assert_eq!(canvas.layout(), ColorLayout::Rgb);
    assert_eq!(canvas.as_raw().len(), 27);
    for y in 0..3 {
        for x in 0..3 {
            assert_eq!(canvas.get_pixel(x, y), Rgba { r: 1, g: 2, b: 3, a: 255 });
        }
    }
}

#[test]
fn paste_overwrites_inside_and_keeps_outside() {
    let mut canvas = PixelBuffer::from_pixel(4, 3, ColorLayout::Rgb, WHITE);
    let top = PixelBuffer::from_raw(2, 1, ColorLayout::Rgba, vec![1, 2, 3, 0, 4, 5, 6, 128]).unwrap();
    paste_resized_image(&mut canvas, &top, 1, 2);
    for y in 0..3 {
        for x in 0..4 {
            let expected = match (x, y) {
                (1, 2) => Rgba { r: 1, g: 2, b: 3, a: 255 },
                (2, 2) => Rgba { r: 4, g: 5, b: 6, a: 255 },
                _ => WHITE,
            };
            assert_eq!(canvas.get_pixel(x, y), expected);
        }
    }
}

#[test]
fn paste_cuts_off_what_reaches_past_the_canvas() {
    let mut canvas = PixelBuffer::from_pixel(2, 2, ColorLayout::Rgb, WHITE);
    let top = PixelBuffer::from_pixel(3, 3, ColorLayout::Rgb, BLACK);
    paste_resized_image(&mut canvas, &top, 1, 1);
    assert_eq!(canvas.get_pixel(0, 0), WHITE);
    assert_eq!(canvas.get_pixel(1, 0), WHITE);
    assert_eq!(canvas.get_pixel(0, 1), WHITE);
    assert_eq!(canvas.get_pixel(1, 1), BLACK);
    paste_resized_image(&mut canvas, &top, u32::MAX, u32::MAX);
    assert_eq!(canvas.get_pixel(1, 1), BLACK);
    assert_eq!(canvas.get_pixel(0, 0), WHITE);
}

#[test]
fn paste_onto_a_canvas_with_alpha_keeps_alpha() {
    let mut canvas = PixelBuffer::from_pixel(2, 1, ColorLayout::Rgba, WHITE);
    let top = PixelBuffer::from_raw(1, 1, ColorLayout::Rgba, vec![1, 2, 3, 4]).unwrap();
    paste_resized_image(&mut canvas, &top, 1, 0);
    assert_eq!(canvas.into_raw(), vec![255, 255, 255, 255, 1, 2, 3, 4]);
}

#[test]
fn center_on_canvas_biases_towards_the_top_left() {
    let content = PixelBuffer::from_pixel(1, 2, ColorLayout::Rgba, RED);
    let canvas = center_on_canvas(&content, 4, BLUE);
    assert_eq!(canvas.dimensions(), (4, 4));
    assert_eq!(canvas.layout(), ColorLayout::Rgb);
    for y in 0..4 {
        for x in 0..4 {
            let inside = x == 1 && (y == 1 || y == 2);
            assert_eq!(canvas.get_pixel(x, y), if inside { RED } else { BLUE });
        }
    }
}

#[test]
fn center_on_canvas_without_content_is_all_background() {
    let content = PixelBuffer::from_pixel(3, 0, ColorLayout::Rgba, RED);
    let canvas = center_on_canvas(&content, 3, Rgba { r: 5, g: 6, b: 7, a: 0 });
    for y in 0..3 {
        for x in 0..3 {
            assert_eq!(canvas.get_pixel(x, y), Rgba { r: 5, g: 6, b: 7, a: 255 });
        }
    }
}

#[test]
fn resize_image_has_the_new_dimensions_and_four_channels() {
    let input_image = PixelBuffer::from_pixel(3, 3, ColorLayout::Rgb, BLUE);
    let resized = resize_image(&input_image, 5, 7).unwrap();
    assert_eq!(resized.dimensions(), (5, 7));
    assert_eq!(resized.layout(), ColorLayout::Rgba);
    assert_eq!(resized.as_raw().len(), 5 * 7 * 4);
    assert_eq!(resized.get_pixel(2, 3), BLUE);
}

#[test]
fn resize_image_to_nothing_is_empty() {
    let input_image = PixelBuffer::from_pixel(3, 3, ColorLayout::Rgb, BLUE);
    let resized = resize_image(&input_image, 0, 7).unwrap();
    assert_eq!(resized.dimensions(), (0, 7));
    assert!(resized.as_raw().is_empty());
    let empty = PixelBuffer::from_pixel(0, 0, ColorLayout::Rgb, BLUE);
    assert_eq!(resize_image(&empty, 4, 0).unwrap().dimensions(), (4, 0));
}

#[test]
fn resize_image_of_an_empty_source_is_refused() {
    let empty = PixelBuffer::from_pixel(0, 5, ColorLayout::Rgb, BLUE);
    assert_eq!(resize_image(&empty, 4, 4).unwrap_err(), FitError::EmptySource);
}

#[test]
fn resize_to_square_of_an_empty_source_is_refused() {
    let empty = PixelBuffer::from_pixel(0, 0, ColorLayout::Rgba, RED);
    assert_eq!(resize_to_square(&empty, 32).unwrap_err(), FitError::EmptySource);
    let no_rows = PixelBuffer::from_pixel(5, 0, ColorLayout::Rgba, RED);
    assert_eq!(resize_to_square(&no_rows, 32).unwrap_err(), FitError::EmptySource);
    assert_eq!(resize_to_square(&no_rows, 0).unwrap_err(), FitError::EmptySource);
}

#[test]
fn resize_to_square_of_one_red_pixel_is_all_red() {
    let input_image = PixelBuffer::from_pixel(1, 1, ColorLayout::Rgb, RED);
    let result = resize_to_square(&input_image, 200).unwrap();
    assert_eq!(result.layout(), ColorLayout::Rgb);
    assert_eq!(result.get_pixel(0, 0), RED);
    assert_eq!(result.get_pixel(50, 50), RED);
    assert_eq!(result.get_pixel(199, 199), RED);
}

#[test]
fn resize_to_square_fills_outside_the_content_with_the_top_left_color() {
    let mut source = PixelBuffer::from_pixel(100, 50, ColorLayout::Rgb, RED);
    source.put_pixel(0, 0, Rgba { r: 10, g: 20, b: 30, a: 255 });
    let canvas = resize_to_square(&source, 20).unwrap();
    assert_eq!(canvas.dimensions(), (20, 20));
    // The content is 20 x 10 and starts in row 5.
    for y in (0..5).chain(15..20) {
        for x in 0..20 {
            assert_eq!(canvas.get_pixel(x, y), Rgba { r: 10, g: 20, b: 30, a: 255 });
        }
    }
    assert_eq!(canvas.get_pixel(10, 10), RED);
}

#[test]
fn resize_to_square_ignores_the_alpha_of_the_top_left_pixel() {
    let source = create_test_image(4, 2, Rgba { r: 9, g: 9, b: 9, a: 0 });
    let canvas = resize_to_square(&source, 4).unwrap();
    assert_eq!(canvas.get_pixel(0, 0), Rgba { r: 9, g: 9, b: 9, a: 255 });
    assert_eq!(canvas.get_pixel(3, 3), Rgba { r: 9, g: 9, b: 9, a: 255 });
}

#[test]
fn resize_to_square_of_a_thin_picture_is_all_background() {
    let source = PixelBuffer::from_pixel(1000, 1, ColorLayout::Rgb, BLUE);
    let canvas = resize_to_square(&source, 32).unwrap();
    for y in 0..32 {
        for x in 0..32 {
            assert_eq!(canvas.get_pixel(x, y), BLUE);
        }
    }
}

#[test]
fn resize_image_to_the_same_size_keeps_the_pixels() {
    let data: Vec<u8> = (0..18).map(|value| value * 10).collect();
    let source = PixelBuffer::from_raw(3, 2, ColorLayout::Rgb, data).unwrap();
    let resized = resize_image(&source, 3, 2).unwrap();
    assert_eq!(resized.layout(), ColorLayout::Rgba);
    assert_eq!(resized.as_raw(), source.to_rgba().as_raw());
    let with_alpha = PixelBuffer::from_raw(1, 2, ColorLayout::Rgba, vec![1, 2, 3, 4, 5, 6, 7, 8]).unwrap();
    assert_eq!(resize_image(&with_alpha, 1, 2).unwrap().into_raw(), vec![1, 2, 3, 4, 5, 6, 7, 8]);
}

#[test]
fn resize_to_square_shows_an_unscaled_source_as_it_is() {
    let data: Vec<u8> = (0..24).map(|value| value * 10).collect();
    let source = PixelBuffer::from_raw(4, 2, ColorLayout::Rgb, data).unwrap();
    let canvas = resize_to_square(&source, 4).unwrap();
    let background = source.get_pixel(0, 0);
    for y in 0..4 {
        for x in 0..4 {
            let expected = if y == 1 || y == 2 { source.get_pixel(x, y - 1) } else { background };
            assert_eq!(canvas.get_pixel(x, y), expected);
        }
    }
}

#[test]
fn resize_to_square_for_many_shapes() {
    for (width, height, output_size) in
        [(1u32, 300u32, 32u32), (300, 1, 32), (2, 3, 1), (255, 256, 256), (7, 7, 7), (33, 31, 32), (640, 480, 16)]
    {
        let mut source = PixelBuffer::from_pixel(width, height, ColorLayout::Rgba, RED);
        source.put_pixel(0, 0, BLUE);
        let canvas = resize_to_square(&source, output_size).unwrap();
        assert_eq!(canvas.dimensions(), (output_size, output_size));
        assert_eq!(canvas.layout(), ColorLayout::Rgb);
        assert_eq!(canvas.as_raw().len(), (output_size * output_size * 3) as usize);
        let new_width = (width as u64 * output_size as u64 / width.max(height) as u64) as u32;
        let new_height = (height as u64 * output_size as u64 / width.max(height) as u64) as u32;
        let paste_x = (output_size - new_width) / 2;
        let paste_y = (output_size - new_height) / 2;
        for y in 0..output_size {
            for x in 0..output_size {
                let inside = paste_x <= x && x < paste_x + new_width && paste_y <= y && y < paste_y + new_height;
                if !inside {
                    assert_eq!(canvas.get_pixel(x, y), BLUE);
                }
            }
        }
    }
}
