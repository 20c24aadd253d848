use tracer_core::fixed::Fixed;
use tracer_core::tuples::{cross, dot, FourTuple};

fn fx(v: i64) -> Fixed {
    Fixed::from_int(v)
}

#[test]
fn test_equality() {
    assert_eq!(
        FourTuple::point(fx(1), fx(1), fx(1)),
        FourTuple::point(fx(1), fx(1), fx(1))
    )
}

#[test]
fn test_is_point() {
    let point = FourTuple::point(fx(0), fx(0), fx(0));
    assert!(FourTuple::is_point(&point));
}

#[test]
fn test_add_point_and_vector() {
    let expected = FourTuple::point(fx(3), fx(3), fx(3));
    let actual = FourTuple::point(fx(1), fx(1), fx(1)).add(FourTuple::vector(fx(2), fx(2), fx(2)));
    assert_eq!(expected, actual);
}

#[test]
fn test_subtract_vector_from_point() {
    let expected = FourTuple::point(fx(1), fx(1), fx(1));
    let actual = FourTuple::point(fx(3), fx(3), fx(3)).sub(FourTuple::vector(fx(2), fx(2), fx(2)));
    assert_eq!(expected, actual);
    assert!(FourTuple::is_point(&actual));
}

#[test]
fn test_subtract_point_from_point() {
    let expected = FourTuple::vector(fx(-2), fx(-4), fx(-6));
    let actual = FourTuple::point(fx(3), fx(2), fx(1)).sub(FourTuple::point(fx(5), fx(6), fx(7)));
    assert_eq!(expected, actual);
    assert!(FourTuple::is_vector(&actual));
}

#[test]
fn test_subtract_two_vectors() {
    let expected = FourTuple::vector(fx(-2), fx(-4), fx(-6));
    let actual = FourTuple::vector(fx(3), fx(2), fx(1)).sub(FourTuple::vector(fx(5), fx(6), fx(7)));
    assert_eq!(expected, actual);
    assert!(FourTuple::is_vector(&actual));
}

#[test]
fn test_negate_tuple() {
    let expected = FourTuple::new(fx(-1), fx(-2), fx(-3), fx(-4));
    let actual = FourTuple::new(fx(1), fx(2), fx(3), fx(4)).neg();
    assert_eq!(expected, actual);
}

#[test]
fn test_multiply_tuple_by_scalar() {
    // 3.5 is 35_000 raw ten-thousandths; 10.5 is 105_000.
    let expected = FourTuple::new(
        Fixed::from_raw(35_000),
        fx(-7),
        Fixed::from_raw(105_000),
        fx(-14),
    );
    let actual = FourTuple::new(fx(1), fx(-2), fx(3), fx(-4)).scale(Fixed::from_raw(35_000));
    assert_eq!(expected, actual);
}

#[test]
fn test_multiply_tuple_by_scalar_int() {
    let expected = FourTuple::new(fx(3), fx(-6), fx(9), fx(-12));
    let actual = FourTuple::new(fx(1), fx(-2), fx(3), fx(-4)).scale(fx(3));
    assert_eq!(expected, actual);
}

#[test]
fn test_dot() {
    let a = FourTuple::vector(fx(1), fx(2), fx(3));
    let b = FourTuple::vector(fx(2), fx(3), fx(4));
    assert_eq!(dot(&a, &b), fx(20));
}

#[test]
fn test_cross() {
    let a = FourTuple::vector(fx(1), fx(2), fx(3));
    let b = FourTuple::vector(fx(2), fx(3), fx(4));
    assert_eq!(cross(&a, &b), FourTuple::vector(fx(-1), fx(2), fx(-1)));
    assert_eq!(cross(&b, &a), FourTuple::vector(fx(1), fx(-2), fx(1)));
}

#[test]
fn test_cross_result_is_vector() {
    let a = FourTuple::point(fx(1), fx(2), fx(3));
    let b = FourTuple::point(fx(2), fx(3), fx(4));
    assert!(FourTuple::is_vector(&cross(&a, &b)));
}
