use tracer_core::canvas::{pixel_at, write_pixel, Canvas};
use tracer_core::color::Color;
use tracer_core::fixed::Fixed;
use tracer_core::ppm::{canvas_to_ppm, parse_ppm_header, ppm_dimensions};

fn col(red: i64, green: i64, blue: i64) -> Color {
    Color::new(Fixed::from_int(red), Fixed::from_int(green), Fixed::from_int(blue))
}

#[test]
fn test_canvas_init() {
    let canvas = Canvas::new(10, 20);
    assert_eq!(canvas.width, 10);
    assert_eq!(canvas.height, 20);
    assert_eq!(canvas.pixels[0], col(0, 0, 0));
    assert_eq!(canvas.pixels[199], col(0, 0, 0));
}

#[test]
fn test_pixel_at() {
    let canvas = Canvas::new(10, 20);
    let black = col(0, 0, 0);
    assert_eq!(pixel_at(&canvas, 0, 0), black);
    assert_eq!(pixel_at(&canvas, 9, 19), black);
}

#[test]
fn test_write_pixel() {
    let white = col(1, 1, 1);
    let mut canvas = Canvas::new(10, 20);

    write_pixel(&mut canvas, 0, 0, white);
    write_pixel(&mut canvas, 9, 19, white);

    assert_eq!(pixel_at(&canvas, 0, 0), white);
    assert_eq!(pixel_at(&canvas, 9, 19), white);
}

#[test]
fn test_canvas_to_ppm() {
    let white = col(1, 1, 1);
    let mut canvas = Canvas::new(2, 2);
    write_pixel(&mut canvas, 0, 0, white);

    let ppm = canvas_to_ppm(&canvas);
    let expected = "P3\n2 2\n255\n255 255 255\n0 0 0\n0 0 0\n0 0 0\n".to_string();

    assert_eq!(ppm, expected);
}

#[test]
fn test_ppm_non_square_canvas() {
    let mut canvas = Canvas::new(3, 1);
    write_pixel(&mut canvas, 1, 0, col(1, 0, 1));

    let ppm = canvas_to_ppm(&canvas);
    assert_eq!(ppm, "P3\n3 1\n255\n0 0 0\n255 0 255\n0 0 0\n");
}

#[test]
fn test_ppm_empty_canvas() {
    let canvas = Canvas::new(0, 0);
    assert_eq!(canvas_to_ppm(&canvas), "P3\n0 0\n255\n");
}

#[test]
fn test_ppm_header_round_trip() {
    let canvas = Canvas::new(123, 45);
    let ppm = canvas_to_ppm(&canvas);
    assert_eq!(parse_ppm_header(&ppm), Some((123, 45)));
    assert_eq!(canvas.pixels.len(), 123 * 45);
}

#[test]
fn test_ppm_dimensions() {
    let canvas = Canvas::new(7, 9);
    assert_eq!(ppm_dimensions(&canvas), Some((7, 9)));
}

#[test]
fn test_ppm_serialization_is_idempotent() {
    let mut canvas = Canvas::new(4, 3);
    write_pixel(&mut canvas, 2, 1, col(0, 1, 0));
    let first = canvas_to_ppm(&canvas);
    let second = canvas_to_ppm(&canvas);
    assert_eq!(first.as_bytes(), second.as_bytes());
}

#[test]
fn test_parse_ppm_header_rejects_malformed_text() {
    assert_eq!(parse_ppm_header("P6\n2 2\n255\n"), None);
    assert_eq!(parse_ppm_header("P3\n2x2\n255\n"), None);
    assert_eq!(parse_ppm_header("P3\n2 2\n15\n"), None);
    assert_eq!(parse_ppm_header(""), None);
    assert_eq!(parse_ppm_header("P3\n 2 2\n255\n"), None);
}
