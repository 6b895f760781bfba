use vmm::{Normalize, ScalarMath, Vec2, Vec3, Vec4, VecMath, VecN};

#[test]
fn new_is_all_zeros() {
    let v = VecN::<i32, 3>::new();
    assert_eq!(v.to_arr(), &[0, 0, 0]);
    assert_eq!(VecN::<i64, 2>::default(), VecN::new());
}

#[test]
fn new_with_repeats_the_value() {
    let v = VecN::<i16, 4>::new_with(7);
    assert_eq!(v.to_arr(), &[7, 7, 7, 7]);
}

#[test]
fn from_array_copies() {
    let a = [1i64, -2, 3];
    let v = VecN::from_array(&a);
    assert_eq!(v.to_arr(), &a);
}

#[test]
fn fill_sets_every_entry() {
    let mut v = Vec3::<i32>::new();
    v.fill(42);
    assert_eq!(v.to_arr(), &[42, 42, 42]);
}

#[test]
fn to_mut_arr_writes_through() {
    let mut v = Vec3::<i32>::new_with(42);
    v.to_mut_arr()[1] = 69;
    assert_eq!(v.to_arr(), &[42, 69, 42]);
}

#[test]
fn get_and_set_by_position() {
    let mut v = Vec4::from_array(&[1u8, 2, 3, 4]);
    assert_eq!(v.get(2), 3);
    v.set(0, 9);
    assert_eq!(v.to_arr(), &[9, 2, 3, 4]);
}

#[test]
fn iter_walks_in_order() {
    let v = Vec3::from_array(&[5i32, 6, 7]);
    let seen: Vec<i32> = v.iter().copied().collect();
    assert_eq!(seen, vec![5, 6, 7]);
}

#[test]
fn iter_mut_writes_every_entry() {
    let mut v = Vec3::from_array(&[5i32, 6, 7]);
    for x in v.iter_mut() {
        *x += 1;
    }
    assert_eq!(v.to_arr(), &[6, 7, 8]);
}

#[test]
fn element_wise_arithmetic() {
    let a = Vec3::from_array(&[6i32, -8, 9]);
    let b = Vec3::from_array(&[2i32, 3, -4]);
    assert_eq!(a.add(b).to_arr(), &[8, -5, 5]);
    assert_eq!(a.sub(b).to_arr(), &[4, -11, 13]);
    assert_eq!(a.mul(b).to_arr(), &[12, -24, -36]);
    assert_eq!(a.div(b).to_arr(), &[3, -2, -2]);
}

#[test]
fn division_rounds_toward_zero() {
    let a = Vec4::from_array(&[7i8, -7, 7, -7]);
    let b = Vec4::from_array(&[2i8, 2, -2, -2]);
    assert_eq!(a.div(b).to_arr(), &[3, -3, -3, 3]);
    let big = Vec2::from_array(&[i64::MIN, i64::MAX]);
    assert_eq!(big.div_scalar(2).to_arr(), &[i64::MIN / 2, i64::MAX / 2]);
}

#[test]
fn scalar_arithmetic() {
    let v = Vec3::from_array(&[1i32, 2, 3]);
    assert_eq!(v.sum_scalar(2).to_arr(), &[3, 4, 5]);
    assert_eq!(v.sub_scalar(2).to_arr(), &[-1, 0, 1]);
    assert_eq!(v.mul_scalar(3).to_arr(), &[3, 6, 9]);
    assert_eq!(v.div_scalar(2).to_arr(), &[0, 1, 1]);
}

#[test]
fn unsigned_scalar_arithmetic() {
    let v = Vec2::from_array(&[250u8, 9]);
    assert_eq!(v.sum_scalar(5).to_arr(), &[255, 14]);
    assert_eq!(v.div_scalar(4).to_arr(), &[62, 2]);
}

#[test]
fn add_then_sub_round_trips() {
    let a = Vec4::from_array(&[3i32, -1, 4, 1]);
    let b = Vec4::from_array(&[-5i32, 9, 2, 6]);
    assert_eq!(a.add(b).sub(b), a);
    assert_eq!(a.add(b), b.add(a));
    assert_eq!(a.sub(b).add(b), a);
}

#[test]
fn mul_then_div_scalar_round_trips() {
    let v = Vec3::from_array(&[-7i64, 0, 13]);
    assert_eq!(v.mul_scalar(-3).div_scalar(-3), v);
    assert_eq!(v.mul_scalar(5).div_scalar(5), v);
}

#[test]
fn dot_of_one_two_three_and_four_five_six() {
    let a = Vec3::from_array(&[1i32, 2, 3]);
    let b = Vec3::from_array(&[4i32, 5, 6]);
    assert_eq!(a.dot(&b), 32);
}

#[test]
fn dot_is_symmetric() {
    let a = Vec4::from_array(&[2i32, -3, 5, 7]);
    let b = Vec4::from_array(&[-1i32, 4, 0, 2]);
    assert_eq!(a.dot(&b), b.dot(&a));
    assert_eq!(a.dot(&b), -2 - 12 + 0 + 14);
}

#[test]
fn length_of_three_four() {
    let v = Vec2::from_array(&[3i32, 4]);
    assert_eq!(v.length(), 5);
}

#[test]
fn length_rounds_down() {
    assert_eq!(Vec3::from_array(&[1i32, 2, 2]).length(), 3);
    assert_eq!(Vec2::from_array(&[2u64, 2]).length(), 2);
    assert_eq!(Vec2::from_array(&[0i16, 0]).length(), 0);
}

#[test]
fn normalize_axis_vector_has_unit_length() {
    let v = Vec3::from_array(&[0i32, -5, 0]);
    let n = v.normalize();
    assert_eq!(n.to_arr(), &[0, -1, 0]);
    assert_eq!(n.length(), 1);
    let w = Vec2::from_array(&[2i32, 2]);
    assert_eq!(w.normalize().to_arr(), &[1, 1]);
    assert_eq!(w.normalize().length(), 1);
}

#[test]
fn normalize_rounds_small_entries_to_zero() {
    let v = Vec2::from_array(&[3i32, 4]);
    assert_eq!(v.normalize().to_arr(), &[0, 0]);
}

#[test]
fn cross_of_one_two_three_and_four_five_six() {
    let a = Vec3::from_array(&[1i32, 2, 3]);
    let b = Vec3::from_array(&[4i32, 5, 6]);
    assert_eq!(a.cross(&b).to_arr(), &[-3, 6, -3]);
}

#[test]
fn cross_anticommutes_and_vanishes_on_itself() {
    let a = Vec3::from_array(&[2i64, -7, 1]);
    let b = Vec3::from_array(&[3i64, 0, -4]);
    assert_eq!(a.cross(&b), b.cross(&a).mul_scalar(-1));
    assert_eq!(a.cross(&a), Vec3::new());
}

#[test]
fn vectors_of_wide_scalars() {
    let v = Vec2::from_array(&[3i128, 4]);
    assert_eq!(v.length(), 5);
    let w = Vec3::from_array(&[1usize, 2, 3]);
    assert_eq!(w.dot(&w), 14);
}
