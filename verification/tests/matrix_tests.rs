// Matrix algebra over fixed-point scalars: one unit of 10_000_000 stands
// for the real number one.

use rust_tracer::common::{f_equal, TraceError, SCALE};
use rust_tracer::matrix::{cofactor, determinant, minor, submatrix, Matrix, RotationAxis};
use rust_tracer::tuple::Tuple;

const U: i64 = 10_000_000;

fn mat(rows: Vec<Vec<i64>>) -> Matrix {
    let scaled = rows
        .into_iter()
        .map(|r| r.into_iter().map(|v| v * U).collect())
        .collect();
    Matrix::new(scaled).unwrap()
}

#[test]
fn create_4x4_matrix() {
    let m = Matrix::new(vec![
        vec![10_000_000, 20_000_000, 30_000_000, 40_000_000],
        vec![55_000_000, 65_000_000, 75_000_000, 85_000_000],
        vec![90_000_000, 100_000_000, 110_000_000, 120_000_000],
        vec![135_000_000, 145_000_000, 155_000_000, 165_000_000],
    ])
    .unwrap();
    assert!(
        m.value[0][0] == U
            && m.value[0][3] == 4 * U
            && m.value[1][0] == 55_000_000
            && m.value[1][2] == 75_000_000
            && m.value[2][2] == 11 * U
            && m.value[3][0] == 135_000_000
            && m.value[3][2] == 155_000_000,
        "The 4x4 matrix was not created correctly."
    );
}

#[test]
fn create_2x2_matrix() {
    let m = mat(vec![vec![-3, 5], vec![1, -2]]);
    assert!(
        m.value[0][0] == -3 * U && m.value[0][1] == 5 * U && m.value[1][0] == U
            && m.value[1][1] == -2 * U,
        "The 2x2 matrix was not created correctly."
    );
}

#[test]
fn create_3x3_matrix() {
    let m = mat(vec![vec![-3, 5, 0], vec![1, -2, -7], vec![0, 1, 1]]);
    assert!(
        m.value[0][0] == -3 * U && m.value[1][1] == -2 * U && m.value[2][2] == U,
        "The 3x3 matrix was not created correctly."
    );
}

#[test]
fn matricies_are_equal() {
    let m1 = mat(vec![
        vec![1, 2, 3, 4],
        vec![5, 6, 7, 8],
        vec![9, 8, 7, 6],
        vec![5, 4, 3, 2],
    ]);
    let m2 = mat(vec![
        vec![1, 2, 3, 4],
        vec![5, 6, 7, 8],
        vec![9, 8, 7, 6],
        vec![5, 4, 3, 2],
    ]);
    assert!(m1 == m2, "The matrices are not equal");
}

#[test]
fn matricies_are_not_equal() {
    let m1 = mat(vec![
        vec![1, 2, 3, 4],
        vec![5, 6, 7, 8],
        vec![9, 8, 7, 6],
        vec![5, 4, 3, 2],
    ]);
    let m2 = mat(vec![
        vec![2, 3, 4, 5],
        vec![6, 7, 8, 9],
        vec![8, 7, 6, 5],
        vec![4, 3, 2, 1],
    ]);
    assert_eq!(m1 == m2, false, "The matrices are not equal!");
}

#[test]
fn multiply_two_matrices() {
    let a = mat(vec![
        vec![1, 2, 3, 4],
        vec![5, 6, 7, 8],
        vec![9, 8, 7, 6],
        vec![5, 4, 3, 2],
    ]);
    let b = mat(vec![
        vec![-2, 1, 2, 3],
        vec![3, 2, 1, -1],
        vec![4, 3, 6, 5],
        vec![1, 2, 7, 8],
    ]);
    let result = mat(vec![
        vec![20, 22, 50, 48],
        vec![44, 54, 114, 108],
        vec![40, 58, 110, 102],
        vec![16, 26, 46, 42],
    ]);
    assert!(
        a.mul(&b).unwrap() == result,
        "The result of multiplying two matricies together is incorrect!"
    );
}

#[test]
fn multiply_tuple_and_matrix() {
    let a = mat(vec![
        vec![1, 2, 3, 4],
        vec![2, 4, 4, 2],
        vec![8, 6, 4, 1],
        vec![0, 0, 0, 1],
    ]);
    let b = Tuple::point(U, 2 * U, 3 * U);
    let result = Tuple::point(18 * U, 24 * U, 33 * U);
    assert!(
        a.mul_tuple(&b).unwrap() == result,
        "The result of multiplying a matrix and a tuple together is incorrect!"
    );
}

#[test]
fn multiply_matrix_by_identity_matrix() {
    let a = mat(vec![
        vec![0, 1, 2, 4],
        vec![1, 2, 4, 8],
        vec![2, 4, 8, 16],
        vec![4, 8, 16, 32],
    ]);
    let same = mat(vec![
        vec![0, 1, 2, 4],
        vec![1, 2, 4, 8],
        vec![2, 4, 8, 16],
        vec![4, 8, 16, 32],
    ]);
    assert!(
        a.mul(&Matrix::identity()).unwrap() == same,
        "The result of multiplying by the identify matrix should be the original matrix!"
    );
}

#[test]
fn multiple_tuple_by_identity() {
    let a = Tuple::point(U, 2 * U, 3 * U);
    assert!(
        Matrix::identity().mul_tuple(&a).unwrap() == a,
        "The result of multiplying a tuple by the identify matrix should be the original tuple!"
    );
}

#[test]
fn transpose_matrix() {
    let a = mat(vec![
        vec![0, 9, 3, 0],
        vec![9, 8, 0, 8],
        vec![1, 8, 5, 3],
        vec![0, 0, 5, 8],
    ]);
    let result = mat(vec![
        vec![0, 9, 1, 0],
        vec![9, 8, 8, 0],
        vec![3, 0, 5, 5],
        vec![0, 8, 3, 8],
    ]);
    assert!(a.transpose() == result, "The result of the matrix transpose is not correct!");
}

#[test]
fn transpose_identity_matrix() {
    assert!(
        Matrix::identity().transpose() == Matrix::identity(),
        "The result of the matrix transpose is not correct!"
    );
}

#[test]
fn determinant_of_2x2() {
    let a = mat(vec![vec![1, 5], vec![-3, 2]]);
    let result = determinant(&a);
    assert!(
        f_equal(result, 17 * U),
        "The determinant should be 17, instead the result was {}",
        result
    );
}

#[test]
fn determinant_of_3x3() {
    let a = mat(vec![vec![1, 2, 6], vec![-5, 8, -4], vec![2, 6, 4]]);
    let result = determinant(&a);
    assert!(
        f_equal(result, -196 * U),
        "The determinant should be -196, instead the result was {}",
        result
    );
}

#[test]
fn determinant_of_4x4() {
    let a = mat(vec![
        vec![-2, -8, 3, 5],
        vec![-3, 1, 7, 3],
        vec![1, 2, -9, 6],
        vec![-6, 7, 7, -9],
    ]);
    let result = determinant(&a);
    assert!(
        f_equal(result, -4071 * U),
        "The determinant should be -4071, instead the result was {}",
        result
    );
}

#[test]
fn submatrix_of_3x3() {
    let a = mat(vec![vec![1, 5, 0], vec![-3, 2, 7], vec![0, 6, -3]]);
    let b = mat(vec![vec![-3, 2], vec![0, 6]]);
    assert!(submatrix(&a, 0, 2) == b, "The submatrix of the 3x3 matrix is not correct!");
}

#[test]
fn submatrix_of_4x4() {
    let a = mat(vec![
        vec![-6, 1, 1, 6],
        vec![-8, 5, 8, 6],
        vec![-1, 0, 8, 2],
        vec![-7, 1, -1, 1],
    ]);
    let b = mat(vec![vec![-6, 1, 6], vec![-8, 8, 6], vec![-7, -1, 1]]);
    assert!(submatrix(&a, 2, 1) == b, "The submatrix of the 4x4 matrix is not correct!");
}

#[test]
fn minor_of_3x3() {
    let a = mat(vec![vec![3, 5, 0], vec![2, -1, -7], vec![6, -1, 5]]);
    let result = minor(&a, 1, 0);
    assert!(
        f_equal(result, 25 * U),
        "The minor should be 25, instead the result was {}",
        result
    );
}

#[test]
fn cofactor_of_3x3() {
    let a = mat(vec![vec![3, 5, 0], vec![2, -1, -7], vec![6, -1, 5]]);
    let result = cofactor(&a, 1, 0);
    assert!(
        f_equal(result, -25 * U),
        "The cofactor should be -25, instead the result was {}",
        result
    );
}

#[test]
fn matrix_is_invertible() {
    let a = mat(vec![
        vec![6, 4, 4, 4],
        vec![5, 5, 7, 6],
        vec![4, -9, 3, -7],
        vec![9, 1, 7, -6],
    ]);
    assert!(a.is_invertible(), "The matrix should be invertible, but isn't.");
}

#[test]
fn matrix_is_not_invertible() {
    let a = mat(vec![
        vec![-4, 2, -2, -3],
        vec![9, 6, 2, 6],
        vec![0, -5, 1, -5],
        vec![0, 0, 0, 0],
    ]);
    assert!(!a.is_invertible(), "The matrix should not be invertible, but is.");
}

#[test]
fn inverse_4x4_matrix_1() {
    let a = mat(vec![
        vec![-5, 2, 6, -8],
        vec![1, -5, 1, 8],
        vec![7, 7, -6, -7],
        vec![1, -3, 7, 4],
    ]);
    let b = Matrix::new(vec![
        vec![2_180_500, 4_511_300, 2_406_000, -451_100],
        vec![-8_082_700, -14_567_700, -4_436_100, 5_206_800],
        vec![-789_500, -2_236_800, -526_300, 1_973_700],
        vec![-5_225_600, -8_139_100, -3_007_500, 3_063_900],
    ])
    .unwrap();
    assert!(a.inverse().unwrap() == b, "The inverse of the 4x4 matrix is not correct!");
}

#[test]
fn inverse_4x4_matrix_2() {
    let a = mat(vec![
        vec![8, -5, 9, 2],
        vec![7, 5, 6, 1],
        vec![-6, 0, 9, 6],
        vec![-3, 0, -9, -4],
    ]);
    let b = Matrix::new(vec![
        vec![-1_538_500, -1_538_500, -2_820_500, -5_384_600],
        vec![-769_200, 1_230_800, 256_400, 307_700],
        vec![3_589_700, 3_589_700, 4_359_000, 9_230_800],
        vec![-6_923_100, -6_923_100, -7_692_300, -19_230_800],
    ])
    .unwrap();
    assert!(a.inverse().unwrap() == b, "The inverse of the 4x4 matrix is not correct!");
}

#[test]
fn inverse_4x4_matrix_3() {
    let a = mat(vec![
        vec![9, 3, 0, 9],
        vec![-5, -2, -6, -3],
        vec![-4, 9, 6, 4],
        vec![-7, 6, 6, 2],
    ]);
    let b = Matrix::new(vec![
        vec![-407_400, -777_800, 1_444_400, -2_222_200],
        vec![-777_800, 333_300, 3_666_700, -3_333_300],
        vec![-290_100, -1_463_000, -1_092_600, 1_296_300],
        vec![1_777_800, 666_700, -2_666_700, 3_333_300],
    ])
    .unwrap();
    assert!(a.inverse().unwrap() == b, "The inverse of the 4x4 matrix is not correct!");
}

#[test]
fn multiply_by_inverse() {
    let a = mat(vec![
        vec![3, -9, 7, 3],
        vec![3, -8, 2, -9],
        vec![-4, 4, 4, 1],
        vec![-6, 5, -1, 1],
    ]);
    let same_a = mat(vec![
        vec![3, -9, 7, 3],
        vec![3, -8, 2, -9],
        vec![-4, 4, 4, 1],
        vec![-6, 5, -1, 1],
    ]);
    let b = mat(vec![
        vec![8, 2, 2, 2],
        vec![3, -1, 7, 0],
        vec![7, 0, 5, 4],
        vec![6, -2, 0, 5],
    ]);
    let c = a.mul(&b).unwrap();
    assert!(
        c.mul(&b.inverse().unwrap()).unwrap() == same_a,
        "Multiplying by the inverse failed to produce the right result!"
    );
}

#[test]
fn determinant_of_identity_is_one() {
    assert_eq!(Matrix::identity().determinant(), SCALE);
    let id2 = mat(vec![vec![1, 0], vec![0, 1]]);
    assert_eq!(determinant(&id2), SCALE);
    let id3 = mat(vec![vec![1, 0, 0], vec![0, 1, 0], vec![0, 0, 1]]);
    assert_eq!(determinant(&id3), SCALE);
}

#[test]
fn new_rejects_ragged_rows() {
    let r = Matrix::new(vec![vec![U, 0], vec![0]]);
    assert_eq!(r.unwrap_err(), TraceError::DimensionMismatch);
}

#[test]
fn new_rejects_oversized_grid() {
    let r = Matrix::new(vec![vec![0; 5]; 5]);
    assert_eq!(r.unwrap_err(), TraceError::DimensionMismatch);
}

#[test]
fn mul_rejects_small_matrices() {
    let a = mat(vec![vec![1, 0], vec![0, 1]]);
    let b = mat(vec![vec![1, 0], vec![0, 1]]);
    assert_eq!(a.mul(&b).unwrap_err(), TraceError::DimensionMismatch);
}

#[test]
fn inverse_rejects_singular_matrix() {
    let a = mat(vec![
        vec![-4, 2, -2, -3],
        vec![9, 6, 2, 6],
        vec![0, -5, 1, -5],
        vec![0, 0, 0, 0],
    ]);
    assert_eq!(a.inverse().unwrap_err(), TraceError::SingularMatrix);
}

#[test]
fn inverse_rejects_out_of_range_entries() {
    // A nearly-flat scaling: its determinant clears the tolerance, but one
    // inverse entry would be a million, beyond the kernel's range.
    let a = Matrix::scaling(10, 4_000_000_000, 4_000_000_000);
    assert_eq!(a.inverse().unwrap_err(), TraceError::OutOfRange);
}

#[test]
fn rotation_quarter_turn_about_z() {
    // cos 90 = 0, sin 90 = 1.
    let m = Matrix::rotation(RotationAxis::Z, 0, U);
    let p = Tuple::point(U, 0, 0);
    assert!(m.mul_tuple(&p).unwrap() == Tuple::point(0, U, 0));
}

#[test]
fn translation_moves_a_point() {
    let m = Matrix::translation(5 * U, -3 * U, 2 * U);
    let p = Tuple::point(-3 * U, 4 * U, 5 * U);
    assert!(m.mul_tuple(&p).unwrap() == Tuple::point(2 * U, U, 7 * U));
}

#[test]
fn translation_leaves_a_vector() {
    let m = Matrix::translation(5 * U, -3 * U, 2 * U);
    let v = Tuple::vector(-3 * U, 4 * U, 5 * U);
    assert!(m.mul_tuple(&v).unwrap() == v);
}

#[test]
fn shearing_moves_x_in_proportion_to_y() {
    let m = Matrix::shearing(U, 0, 0, 0, 0, 0);
    let p = Tuple::point(2 * U, 3 * U, 4 * U);
    assert!(m.mul_tuple(&p).unwrap() == Tuple::point(5 * U, 3 * U, 4 * U));
}
