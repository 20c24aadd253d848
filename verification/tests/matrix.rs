use tracer_core::fixed::Fixed;
use tracer_core::matrix::{set_val, value_at, Matrix};
use tracer_core::tuples::FourTuple;

fn fx(v: i64) -> Fixed {
    Fixed::from_int(v)
}

// Raw values are ten-thousandths: half(11) is 5.5.
fn half(doubled: i64) -> Fixed {
    Fixed::from_raw(doubled * 5_000)
}

fn from_ints(vals: [i64; 16]) -> Matrix {
    Matrix::from_vec(4, 4, vals.iter().map(|v| fx(*v)).collect())
}

#[test]
fn test_create_4x4() {
    let matrix = Matrix::from_vec(
        4,
        4,
        vec![
            fx(1),
            fx(2),
            fx(3),
            fx(4),
            half(11),
            half(13),
            half(15),
            half(17),
            fx(9),
            fx(10),
            fx(11),
            fx(12),
            half(27),
            half(29),
            half(31),
            half(33),
        ],
    );

    assert_eq!(value_at(&matrix, 0, 0), fx(1));
    assert_eq!(value_at(&matrix, 1, 0), half(11));
    assert_eq!(value_at(&matrix, 0, 3), fx(4));
    assert_eq!(value_at(&matrix, 3, 0), half(27));
    assert_eq!(value_at(&matrix, 3, 3), half(33));
}

#[test]
fn test_matrix_mul_4x4() {
    let a = from_ints([1, 2, 3, 4, 5, 6, 7, 8, 9, 8, 7, 6, 5, 4, 3, 2]);
    let b = from_ints([-2, 1, 2, 3, 3, 2, 1, -1, 4, 3, 6, 5, 1, 2, 7, 8]);
    let expected = from_ints([
        20, 22, 50, 48, 44, 54, 114, 108, 40, 58, 110, 102, 16, 26, 46, 42,
    ]);
    let result = a.mul(&b);

    assert_eq!(result, expected);
}

#[test]
fn test_mul_4x4_matrix_by_fourtuple() {
    let a = from_ints([1, 2, 3, 4, 2, 4, 4, 2, 8, 6, 4, 1, 0, 0, 0, 1]);
    let vector = FourTuple::new(fx(1), fx(2), fx(3), fx(1));

    let result = a.mul_tuple(&vector);
    let expected = FourTuple::new(fx(18), fx(24), fx(33), fx(1));
    assert_eq!(result, expected);
}

#[test]
fn test_identity_is_left_and_right_identity() {
    let a = from_ints([1, 2, 3, 4, 5, 6, 7, 8, 9, 8, 7, 6, 5, 4, 3, 2]);
    let i = Matrix::identity();
    assert_eq!(i.mul(&a), a);
    assert_eq!(a.mul(&i), a);
}

#[test]
fn test_matrix_mul_associative_sample() {
    let a = from_ints([1, 2, 3, 4, 5, 6, 7, 8, 9, 8, 7, 6, 5, 4, 3, 2]);
    let b = from_ints([-2, 1, 2, 3, 3, 2, 1, -1, 4, 3, 6, 5, 1, 2, 7, 8]);
    let c = from_ints([2, 0, 1, -1, 0, 3, 2, 1, 1, 1, 0, 2, -2, 0, 1, 3]);
    assert_eq!(a.mul(&b).mul(&c), a.mul(&b.mul(&c)));
}

#[test]
fn test_new_is_zero_filled() {
    let m = Matrix::new(3, 3);
    for row in 0..3 {
        for col in 0..3 {
            assert_eq!(value_at(&m, row, col), fx(0));
        }
    }
}

#[test]
fn test_set_val_then_value_at() {
    let mut m = Matrix::new(2, 3);
    set_val(&mut m, 1, 2, half(9));
    assert_eq!(value_at(&m, 1, 2), half(9));
    assert_eq!(value_at(&m, 0, 2), fx(0));
}
