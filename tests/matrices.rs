use vmm::{Identity, Mat2, Mat3, Mat4, MatN, MatVecMath, ScalarMath, Vec2, Vec3, VecN};

#[test]
fn new_matrix_is_all_zeros() {
    let m = MatN::<i32, 2>::new();
    assert_eq!(m.to_mat(), [[0, 0], [0, 0]]);
    assert_eq!(Mat3::<i64>::default(), Mat3::new());
}

#[test]
fn new_with_and_fill_matrix() {
    let m = Mat2::<i32>::new_with(3);
    assert_eq!(m.to_mat(), [[3, 3], [3, 3]]);
    let mut n = Mat2::<i32>::new();
    n.fill(-1);
    assert_eq!(n.to_mat(), [[-1, -1], [-1, -1]]);
}

#[test]
fn from_mat_and_from_mat_vec_agree() {
    let m = Mat2::from_mat(&[[1i32, 2], [3, 4]]);
    let rows = [Vec2::from_array(&[1i32, 2]), Vec2::from_array(&[3, 4])];
    assert_eq!(Mat2::from_mat_vec(&rows), m);
    assert_eq!(m.to_mat_vec(), &rows);
    assert_eq!(m.to_mat(), [[1, 2], [3, 4]]);
}

#[test]
fn rows_and_entries() {
    let mut m = Mat2::from_mat(&[[1i32, 2], [3, 4]]);
    assert_eq!(m.row(1).to_arr(), &[3, 4]);
    assert_eq!(m.get(0, 1), 2);
    m.set(0, 1, 9);
    assert_eq!(m.to_mat(), [[1, 9], [3, 4]]);
    m.to_mut_mat_vec()[1] = Vec2::new_with(0);
    assert_eq!(m.to_mat(), [[1, 9], [0, 0]]);
}

#[test]
fn iterators_over_rows() {
    let mut m = Mat2::from_mat(&[[1i32, 2], [3, 4]]);
    let firsts: Vec<i32> = m.iter().map(|r| r.get(0)).collect();
    assert_eq!(firsts, vec![1, 3]);
    for r in m.iter_mut() {
        r.fill(7);
    }
    assert_eq!(m.to_mat(), [[7, 7], [7, 7]]);
}

#[test]
fn transpose_swaps_and_round_trips() {
    let m = Mat3::from_mat(&[[1i32, 2, 3], [4, 5, 6], [7, 8, 9]]);
    let t = m.transpose();
    assert_eq!(t.to_mat(), [[1, 4, 7], [2, 5, 8], [3, 6, 9]]);
    assert_eq!(t.transpose(), m);
}

#[test]
fn identity_of_two_and_three() {
    assert_eq!(Mat2::<i32>::identity().to_mat(), [[1, 0], [0, 1]]);
    assert_eq!(Mat3::<i32>::identity().to_mat(), [[1, 0, 0], [0, 1, 0], [0, 0, 1]]);
}

#[test]
fn identity_is_neutral_for_mul() {
    let m = Mat3::from_mat(&[[2i32, -1, 0], [5, 3, 8], [-4, 7, 1]]);
    assert_eq!(m.mul(Mat3::identity()), m);
    assert_eq!(Mat3::identity().mul(m), m);
}

#[test]
fn mul_is_the_row_column_product() {
    let a = Mat2::from_mat(&[[1i32, 2], [3, 4]]);
    let b = Mat2::from_mat(&[[5i32, 6], [7, 8]]);
    assert_eq!(a.mul(b).to_mat(), [[19, 22], [43, 50]]);
    assert_eq!(b.mul(a).to_mat(), [[23, 34], [31, 46]]);
}

#[test]
fn mul_mat_vec_is_row_dot_vector() {
    let m = Mat2::from_mat(&[[1i32, 2], [3, 4]]);
    let v = Vec2::from_array(&[5i32, -1]);
    assert_eq!(m.mul_mat_vec(&v).to_arr(), &[3, 11]);
}

#[test]
fn matrix_add_and_sub() {
    let a = Mat2::from_mat(&[[1i32, 2], [3, 4]]);
    let b = Mat2::from_mat(&[[10i32, 20], [30, 40]]);
    assert_eq!(a.add(b).to_mat(), [[11, 22], [33, 44]]);
    assert_eq!(b.sub(a).to_mat(), [[9, 18], [27, 36]]);
}

#[test]
fn mul_scalar_of_one_two_three_four() {
    let m = Mat2::from_mat(&[[1i32, 2], [3, 4]]);
    assert_eq!(m.mul_scalar(2), Mat2::from_mat(&[[2, 4], [6, 8]]));
}

#[test]
fn other_scalar_arithmetic() {
    let m = Mat2::from_mat(&[[1i32, 2], [3, 4]]);
    assert_eq!(m.sum_scalar(2).to_mat(), [[3, 4], [5, 6]]);
    assert_eq!(m.sub_scalar(2).to_mat(), [[-1, 0], [1, 2]]);
    assert_eq!(m.div_scalar(2).to_mat(), [[0, 1], [1, 2]]);
    assert_eq!(m.mul_scalar(-3).div_scalar(-3), m);
}

#[test]
fn translate_fills_the_last_column() {
    let m3 = Mat3::<i32>::new().translate(&Vec2::from_array(&[5, -6]));
    assert_eq!(m3.to_mat(), [[1, 0, 5], [0, 1, -6], [0, 0, 1]]);
    let m4 = Mat4::<i32>::new().translate(&Vec3::from_array(&[1, 2, 3]));
    assert_eq!(m4.to_mat(), [[1, 0, 0, 1], [0, 1, 0, 2], [0, 0, 1, 3], [0, 0, 0, 1]]);
}

#[test]
fn scale_fills_the_diagonal_but_the_homogeneous_entry() {
    let s = Vec3::from_array(&[2i32, 3, 4]);
    assert_eq!(Mat3::<i32>::new().scale(&s).to_mat(), [[2, 0, 0], [0, 3, 0], [0, 0, 1]]);
    assert_eq!(
        Mat4::<i32>::new().scale(&s).to_mat(),
        [[2, 0, 0, 0], [0, 3, 0, 0], [0, 0, 4, 0], [0, 0, 0, 1]]
    );
}

#[test]
fn rotate_by_zero_angles_keeps_the_matrix() {
    let m = Mat4::from_mat(&[[1i32, 2, 3, 4], [5, 6, 7, 8], [9, 10, 11, 12], [13, 14, 15, 16]]);
    let r = m.rotate_by(&Vec3::new_with(1), &Vec3::new());
    assert_eq!(r, m);
}

#[test]
fn rotate_by_quarter_turns() {
    let id = Mat3::<i32>::identity();
    let about_z = id.rotate_by(&Vec3::from_array(&[1, 1, 0]), &Vec3::from_array(&[0, 0, 1]));
    assert_eq!(about_z.to_mat(), [[0, -1, 0], [1, 0, 0], [0, 0, 1]]);
    let about_x = id.rotate_by(&Vec3::from_array(&[0, 1, 1]), &Vec3::from_array(&[1, 0, 0]));
    assert_eq!(about_x.to_mat(), [[1, 0, 0], [0, 0, -1], [0, 1, 0]]);
    let about_y = id.rotate_by(&Vec3::from_array(&[1, 0, 1]), &Vec3::from_array(&[0, 1, 0]));
    assert_eq!(about_y.to_mat(), [[0, 0, 1], [0, 1, 0], [-1, 0, 0]]);
    let v = VecN::from_array(&[1i32, 0, 0]);
    assert_eq!(about_z.mul_mat_vec(&v).to_arr(), &[0, 1, 0]);
}

#[test]
fn rotate_by_composes_x_then_y_then_z() {
    let id = Mat3::<i32>::identity();
    let r = id.rotate_by(&Vec3::from_array(&[0, 0, 0]), &Vec3::from_array(&[1, 1, 1]));
    let x = Mat3::from_mat(&[[1, 0, 0], [0, 0, -1], [0, 1, 0]]);
    let y = Mat3::from_mat(&[[0, 0, 1], [0, 1, 0], [-1, 0, 0]]);
    let z = Mat3::from_mat(&[[0, -1, 0], [1, 0, 0], [0, 0, 1]]);
    assert_eq!(r, x.mul(y).mul(z));
    assert_eq!(r.to_mat(), [[0, 0, 1], [0, -1, 0], [1, 0, 0]]);
}

#[test]
fn checked_mul_reports_overflow() {
    let a = Mat2::from_mat(&[[100i8, 0], [0, 1]]);
    assert_eq!(a.checked_mul(a), None);
    let b = Mat2::from_mat(&[[10i8, 1], [0, 1]]);
    assert_eq!(b.checked_mul(b), Some(Mat2::from_mat(&[[100, 11], [0, 1]])));
}

#[test]
fn try_rotate_by_reports_what_does_not_fit() {
    let id = Mat3::<u8>::identity();
    assert_eq!(id.try_rotate_by(&Vec3::from_array(&[1, 1, 0]), &Vec3::from_array(&[0, 0, 1])), None);
    assert_eq!(id.try_rotate_by(&Vec3::new_with(1), &Vec3::new()), Some(id));
    let big = Mat3::<i8>::new_with(100);
    let r = big.try_rotate_by(&Vec3::from_array(&[1, 1, 1]), &Vec3::from_array(&[0, 0, 1]));
    assert_eq!(r, None);
    let i = Mat3::<i8>::identity();
    let q = i.try_rotate_by(&Vec3::from_array(&[1, 1, 0]), &Vec3::from_array(&[0, 0, 1]));
    assert_eq!(q.map(|m| m.to_mat()), Some([[0, -1, 0], [1, 0, 0], [0, 0, 1]]));
}
