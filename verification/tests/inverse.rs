use float_cmp::{ApproxEq, F32Margin};
use raytracer::matrix::{cofactor_is_negated, matrix2, matrix3, matrix4, M2, M3, M4};

// The arithmetic on the entries, as a caller of the library supplies it.

fn close(a: f32, b: f32) -> bool {
    a.approx_eq(b, F32Margin::zero().epsilon(0.00001))
}

fn dot4(r: (f32, f32, f32, f32), c: (f32, f32, f32, f32)) -> f32 {
    r.0 * c.0 + r.1 * c.1 + r.2 * c.2 + r.3 * c.3
}

fn determinant2(m: M2<f32>) -> f32 {
    m.a00 * m.a11 - m.a10 * m.a01
}

fn minor3(m: M3<f32>, row: usize, column: usize) -> f32 {
    determinant2(m.submatrix(row, column))
}

fn cofactor3(m: M3<f32>, row: usize, column: usize) -> f32 {
    if cofactor_is_negated(row, column) {
        -minor3(m, row, column)
    } else {
        minor3(m, row, column)
    }
}

fn determinant3(m: M3<f32>) -> f32 {
    m.a00 * cofactor3(m, 0, 0) + m.a01 * cofactor3(m, 0, 1) + m.a02 * cofactor3(m, 0, 2)
}

fn cofactor4(m: M4<f32>, row: usize, column: usize) -> f32 {
    let minor = determinant3(m.submatrix(row, column));
    if cofactor_is_negated(row, column) {
        -minor
    } else {
        minor
    }
}

fn determinant4(m: M4<f32>) -> f32 {
    m.a00 * cofactor4(m, 0, 0)
        + m.a01 * cofactor4(m, 0, 1)
        + m.a02 * cofactor4(m, 0, 2)
        + m.a03 * cofactor4(m, 0, 3)
}

fn inverse(m: M4<f32>) -> M4<f32> {
    let det = determinant4(m);
    assert!(!close(det, 0.0));
    M4::from_cofactors(|row, column| cofactor4(m, row, column) / det)
}

#[test]
fn matrix2_determinant() {
    assert_eq!(determinant2(matrix2(1.0, 5.0, -3.0, 2.0)), 17.0);
}

#[test]
fn matrix3_determinant() {
    let m = matrix3(1.0, 2.0, 6.0, -5.0, 8.0, -4.0, 2.0, 6.0, 4.0);
    assert_eq!(cofactor3(m, 0, 0), 56.0);
    assert_eq!(cofactor3(m, 0, 1), 12.0);
    assert_eq!(cofactor3(m, 0, 2), -46.0);
    assert_eq!(determinant3(m), -196.0);
}

#[test]
fn matrix4_determinant() {
    let m = matrix4(
        -2.0, -8.0, 3.0, 5.0, -3.0, 1.0, 7.0, 3.0, 1.0, 2.0, -9.0, 6.0, -6.0, 7.0, 7.0, -9.0,
    );
    assert_eq!(cofactor4(m, 0, 0), 690.0);
    assert_eq!(cofactor4(m, 0, 1), 447.0);
    assert_eq!(cofactor4(m, 0, 2), 210.0);
    assert_eq!(cofactor4(m, 0, 3), 51.0);
    assert_eq!(determinant4(m), -4071.0);
}

#[test]
fn matrix3_minor() {
    let m = matrix3(3.0, 5.0, 0.0, 2.0, -1.0, -7.0, 6.0, -1.0, 5.0);
    assert_eq!(determinant2(m.submatrix(1, 0)), 25.0);
    assert_eq!(minor3(m, 1, 0), 25.0);
}

#[test]
fn matrix3_cofactor() {
    let m = matrix3(3.0, 5.0, 0.0, 2.0, -1.0, -7.0, 6.0, -1.0, 5.0);
    assert_eq!(minor3(m, 0, 0), -12.0);
    assert_eq!(cofactor3(m, 0, 0), -12.0);
    assert_eq!(minor3(m, 1, 0), 25.0);
    assert_eq!(cofactor3(m, 1, 0), -25.0);
}

#[test]
fn matrix4_invertible() {
    let m = matrix4(
        6.0, 4.0, 4.0, 4.0, 5.0, 5.0, 7.0, 6.0, 4.0, -9.0, 3.0, -7.0, 9.0, 1.0, 7.0, -6.0,
    );
    assert_eq!(determinant4(m), -2120.0);
    assert!(!close(determinant4(m), 0.0));
}

#[test]
fn matrix4_invertible2() {
    let m = matrix4(
        -4.0, 2.0, -2.0, -3.0, 9.0, 6.0, 2.0, 6.0, 0.0, -5.0, 1.0, -5.0, 0.0, 0.0, 0.0, 0.0,
    );
    assert_eq!(determinant4(m), 0.0);
    assert!(close(determinant4(m), 0.0));
}

#[test]
fn matrix4_inverse() {
    let a = matrix4(
        -5.0, 2.0, 6.0, -8.0, 1.0, -5.0, 1.0, 8.0, 7.0, 7.0, -6.0, -7.0, 1.0, -3.0, 7.0, 4.0,
    );
    let b = inverse(a);

    assert_eq!(determinant4(a), 532.0);
    assert_eq!(cofactor4(a, 2, 3), -160.0);
    assert_eq!(*b.index((3, 2)), -160.0 / 532.0);
    assert_eq!(cofactor4(a, 3, 2), 105.0);
    assert_eq!(*b.index((2, 3)), 105.0 / 532.0);

    let expected = matrix4(
        0.21805, 0.45113, 0.24060, -0.04511, -0.80827, -1.45677, -0.44361, 0.52068, -0.07895,
        -0.22368, -0.05263, 0.19737, -0.52256, -0.81391, -0.30075, 0.30639,
    );
    assert!(b.eq_by(&expected, close));
}

#[test]
fn matrix4_inverse2() {
    let a = matrix4(
        8.0, -5.0, 9.0, 2.0, 7.0, 5.0, 6.0, 1.0, -6.0, 0.0, 9.0, 6.0, -3.0, 0.0, -9.0, -4.0,
    );
    let expected = matrix4(
        -0.15385, -0.15385, -0.28205, -0.53846, -0.07692, 0.12308, 0.02564, 0.03077, 0.35897,
        0.35897, 0.43590, 0.92308, -0.69231, -0.69231, -0.76923, -1.92308,
    );
    assert!(inverse(a).eq_by(&expected, close));
}

#[test]
fn matrix4_inverse3() {
    let a = matrix4(
        9.0, 3.0, 0.0, 9.0, -5.0, -2.0, -6.0, -3.0, -4.0, 9.0, 6.0, 4.0, -7.0, 6.0, 6.0, 2.0,
    );
    let expected = matrix4(
        -0.04074, -0.07778, 0.14444, -0.22222, -0.07778, 0.03333, 0.36667, -0.33333, -0.02901,
        -0.14630, -0.10926, 0.12963, 0.17778, 0.06667, -0.26667, 0.33333,
    );
    assert!(inverse(a).eq_by(&expected, close));
}

#[test]
fn matrix4_inverse_product() {
    let a = matrix4(
        3.0, -9.0, 7.0, 3.0, 3.0, -8.0, 2.0, -9.0, -4.0, 4.0, 4.0, 1.0, -6.0, 5.0, -1.0, 1.0,
    );
    let b = matrix4(
        8.0, 2.0, 2.0, 2.0, 3.0, -1.0, 7.0, 0.0, 7.0, 0.0, 5.0, 4.0, 6.0, -2.0, 0.0, 5.0,
    );
    let c = a.mul_by(b, dot4);
    let d = c.mul_by(inverse(b), dot4);

    assert!(d.eq_by(&a, close));
}

#[test]
fn inverse_takes_the_image_of_a_tuple_back() {
    let m = matrix4(
        -5.0, 2.0, 6.0, -8.0, 1.0, -5.0, 1.0, 8.0, 7.0, 7.0, -6.0, -7.0, 1.0, -3.0, 7.0, 4.0,
    );
    let t = (1.0, -2.0, 3.0, 1.0);
    let back = inverse(m).mul_tuple_by(m.mul_tuple_by(t, dot4), dot4);
    assert!(close(back.0, t.0) && close(back.1, t.1) && close(back.2, t.2) && close(back.3, t.3));
}

#[test]
fn cofactors_across_the_diagonal_times_the_matrix_give_the_determinant() {
    // In whole numbers the arithmetic is exact.
    let m: M4<i64> = matrix4(-5, 2, 6, -8, 1, -5, 1, 8, 7, 7, -6, -7, 1, -3, 7, 4);
    let det2 = |s: M2<i64>| s.a00 * s.a11 - s.a10 * s.a01;
    let cof3 = |s: M3<i64>, row: usize, column: usize| {
        let minor = det2(s.submatrix(row, column));
        if cofactor_is_negated(row, column) { -minor } else { minor }
    };
    let det3 = |s: M3<i64>| s.a00 * cof3(s, 0, 0) + s.a01 * cof3(s, 0, 1) + s.a02 * cof3(s, 0, 2);
    let cof4 = |row: usize, column: usize| {
        let minor = det3(m.submatrix(row, column));
        if cofactor_is_negated(row, column) { -minor } else { minor }
    };
    let det = m.a00 * cof4(0, 0) + m.a01 * cof4(0, 1) + m.a02 * cof4(0, 2) + m.a03 * cof4(0, 3);
    assert_eq!(det, 532);
    let adjugate = M4::from_cofactors(cof4);
    let dot = |r: (i64, i64, i64, i64), c: (i64, i64, i64, i64)| {
        r.0 * c.0 + r.1 * c.1 + r.2 * c.2 + r.3 * c.3
    };
    assert_eq!(
        adjugate.mul_by(m, dot),
        matrix4(det, 0, 0, 0, 0, det, 0, 0, 0, 0, det, 0, 0, 0, 0, det)
    );
    // Laid out without the swap, the cofactors do not undo the matrix.
    let unswapped = M4::from_cofactors(cof4).transpose();
    let scaled_identity = matrix4(det, 0, 0, 0, 0, det, 0, 0, 0, 0, det, 0, 0, 0, 0, det);
    assert!(unswapped.mul_by(m, dot) != scaled_identity);
}
