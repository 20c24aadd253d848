use tracer_core::color::Color;
use tracer_core::fixed::Fixed;

// Raw values are ten-thousandths: col(9_000, 6_000, 7_500) is (0.9, 0.6, 0.75).
fn col(red: i64, green: i64, blue: i64) -> Color {
    Color::new(Fixed::from_raw(red), Fixed::from_raw(green), Fixed::from_raw(blue))
}

fn compare(c1: Color, c2: Color) {
    assert_eq!(c1.red, c2.red);
    assert_eq!(c1.blue, c2.blue);
    assert_eq!(c1.green, c2.green);
}

#[test]
fn test_add_color() {
    let expected = col(16_000, 7_000, 10_000);
    let actual = col(9_000, 6_000, 7_500).add(col(7_000, 1_000, 2_500));
    compare(expected, actual);
}

#[test]
fn test_subtract_color() {
    let expected = col(2_000, 5_000, 5_000);
    let actual = col(9_000, 6_000, 7_500).sub(col(7_000, 1_000, 2_500));
    compare(expected, actual);
}

#[test]
fn test_mul_color_by_scalar() {
    compare(
        col(2_000, 3_000, 4_000).scale(Fixed::from_int(2)),
        col(4_000, 6_000, 8_000),
    )
}

#[test]
fn test_mul_colors() {
    let expected = col(9_000, 2_000, 400);
    let actual = col(10_000, 2_000, 4_000).hadamard(col(9_000, 10_000, 1_000));
    compare(expected, actual);
}

#[test]
fn test_as_rgb() {
    let expected = (255, 128, 0);
    let actual = col(15_000, 5_000, 0).as_rgb();
    assert_eq!(expected, actual);
}

#[test]
fn test_as_rgb_negative_channel() {
    // A negative channel quantizes to 0: the low clamp keeps the value
    // from wrapping below zero.
    let expected = (0, 255, 26);
    let actual = col(-5_000, 20_000, 1_000).as_rgb();
    assert_eq!(expected, actual);
}

#[test]
fn test_as_rgb_rounds_to_nearest() {
    // 0.998 * 255 = 254.49 rounds down; 0.999 * 255 = 254.745 rounds up.
    assert_eq!(col(9_980, 9_990, 10_000).as_rgb(), (254, 255, 255));
}
