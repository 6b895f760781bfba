//! The scalar capabilities for the primitive integer types.
use vstd::prelude::*;
use crate::math::{Scalar, Sqrrt, UnitValue, div_toward_zero, sqrt_floor_u128};

verus! {

impl Scalar for i8 {
    open spec fn val(self) -> int {
        self as int
    }

    open spec fn min_value() -> int {
        i8::MIN as int
    }

    open spec fn max_value() -> int {
        i8::MAX as int
    }

    proof fn lemma_bounds(self) {
    }

    fn zero() -> i8 {
        0
    }

    fn plus(self, rhs: i8) -> i8 {
        self + rhs
    }

    fn minus(self, rhs: i8) -> i8 {
        self - rhs
    }

    fn times(self, rhs: i8) -> i8 {
        self * rhs
    }

    fn checked_plus(self, rhs: i8) -> Option<i8> {
        self.checked_add(rhs)
    }

    fn checked_minus(self, rhs: i8) -> Option<i8> {
        self.checked_sub(rhs)
    }

    fn checked_times(self, rhs: i8) -> Option<i8> {
        self.checked_mul(rhs)
    }

    fn quot(self, rhs: i8) -> i8 {
        div_toward_zero(self as i128, rhs as i128) as i8
    }
}

impl Sqrrt for i8 {
    fn sqrrt(&self) -> i8 {
        sqrt_floor_u128(*self as u128) as i8
    }
}

impl UnitValue for i8 {
    fn unit_value() -> i8 {
        1
    }
}

impl Scalar for i16 {
    open spec fn val(self) -> int {
        self as int
    }

    open spec fn min_value() -> int {
        i16::MIN as int
    }

    open spec fn max_value() -> int {
        i16::MAX as int
    }

    proof fn lemma_bounds(self) {
    }

    fn zero() -> i16 {
        0
    }

    fn plus(self, rhs: i16) -> i16 {
        self + rhs
    }

    fn minus(self, rhs: i16) -> i16 {
        self - rhs
    }

    fn times(self, rhs: i16) -> i16 {
        self * rhs
    }

    fn checked_plus(self, rhs: i16) -> Option<i16> {
        self.checked_add(rhs)
    }

    fn checked_minus(self, rhs: i16) -> Option<i16> {
        self.checked_sub(rhs)
    }

    fn checked_times(self, rhs: i16) -> Option<i16> {
        self.checked_mul(rhs)
    }

    fn quot(self, rhs: i16) -> i16 {
        div_toward_zero(self as i128, rhs as i128) as i16
    }
}

impl Sqrrt for i16 {
    fn sqrrt(&self) -> i16 {
        sqrt_floor_u128(*self as u128) as i16
    }
}

impl UnitValue for i16 {
    fn unit_value() -> i16 {
        1
    }
}

impl Scalar for i32 {
    open spec fn val(self) -> int {
        self as int
    }

    open spec fn min_value() -> int {
        i32::MIN as int
    }

    open spec fn max_value() -> int {
        i32::MAX as int
    }

    proof fn lemma_bounds(self) {
    }

    fn zero() -> i32 {
        0
    }

    fn plus(self, rhs: i32) -> i32 {
        self + rhs
    }

    fn minus(self, rhs: i32) -> i32 {
        self - rhs
    }

    fn times(self, rhs: i32) -> i32 {
        self * rhs
    }

    fn checked_plus(self, rhs: i32) -> Option<i32> {
        self.checked_add(rhs)
    }

    fn checked_minus(self, rhs: i32) -> Option<i32> {
        self.checked_sub(rhs)
    }

    fn checked_times(self, rhs: i32) -> Option<i32> {
        self.checked_mul(rhs)
    }

    fn quot(self, rhs: i32) -> i32 {
        div_toward_zero(self as i128, rhs as i128) as i32
    }
}

impl Sqrrt for i32 {
    fn sqrrt(&self) -> i32 {
        sqrt_floor_u128(*self as u128) as i32
    }
}

impl UnitValue for i32 {
    fn unit_value() -> i32 {
        1
    }
}

impl Scalar for i64 {
    open spec fn val(self) -> int {
        self as int
    }

    open spec fn min_value() -> int {
        i64::MIN as int
    }

    open spec fn max_value() -> int {
        i64::MAX as int
    }

    proof fn lemma_bounds(self) {
    }

    fn zero() -> i64 {
        0
    }

    fn plus(self, rhs: i64) -> i64 {
        self + rhs
    }

    fn minus(self, rhs: i64) -> i64 {
        self - rhs
    }

    fn times(self, rhs: i64) -> i64 {
        self * rhs
    }

    fn checked_plus(self, rhs: i64) -> Option<i64> {
        self.checked_add(rhs)
    }

    fn checked_minus(self, rhs: i64) -> Option<i64> {
        self.checked_sub(rhs)
    }

    fn checked_times(self, rhs: i64) -> Option<i64> {
        self.checked_mul(rhs)
    }

    fn quot(self, rhs: i64) -> i64 {
        div_toward_zero(self as i128, rhs as i128) as i64
    }
}

impl Sqrrt for i64 {
    fn sqrrt(&self) -> i64 {
        sqrt_floor_u128(*self as u128) as i64
    }
}

impl UnitValue for i64 {
    fn unit_value() -> i64 {
        1
    }
}

impl Scalar for i128 {
    open spec fn val(self) -> int {
        self as int
    }

    open spec fn min_value() -> int {
        i128::MIN as int
    }

    open spec fn max_value() -> int {
        i128::MAX as int
    }

    proof fn lemma_bounds(self) {
    }

    fn zero() -> i128 {
        0
    }

    fn plus(self, rhs: i128) -> i128 {
        self + rhs
    }

    fn minus(self, rhs: i128) -> i128 {
        self - rhs
    }

    fn times(self, rhs: i128) -> i128 {
        self * rhs
    }

    fn checked_plus(self, rhs: i128) -> Option<i128> {
        self.checked_add(rhs)
    }

    fn checked_minus(self, rhs: i128) -> Option<i128> {
        self.checked_sub(rhs)
    }

    fn checked_times(self, rhs: i128) -> Option<i128> {
        self.checked_mul(rhs)
    }

    fn quot(self, rhs: i128) -> i128 {
        div_toward_zero(self, rhs)
    }
}

impl Sqrrt for i128 {
    fn sqrrt(&self) -> i128 {
        sqrt_floor_u128(*self as u128) as i128
    }
}

impl UnitValue for i128 {
    fn unit_value() -> i128 {
        1
    }
}

impl Scalar for isize {
    open spec fn val(self) -> int {
        self as int
    }

    open spec fn min_value() -> int {
        isize::MIN as int
    }

    open spec fn max_value() -> int {
        isize::MAX as int
    }

    proof fn lemma_bounds(self) {
    }

    fn zero() -> isize {
        0
    }

    fn plus(self, rhs: isize) -> isize {
        self + rhs
    }

    fn minus(self, rhs: isize) -> isize {
        self - rhs
    }

    fn times(self, rhs: isize) -> isize {
        self * rhs
    }

    fn checked_plus(self, rhs: isize) -> Option<isize> {
        self.checked_add(rhs)
    }

    fn checked_minus(self, rhs: isize) -> Option<isize> {
        self.checked_sub(rhs)
    }

    fn checked_times(self, rhs: isize) -> Option<isize> {
        self.checked_mul(rhs)
    }

    fn quot(self, rhs: isize) -> isize {
        div_toward_zero(self as i128, rhs as i128) as isize
    }
}

impl Sqrrt for isize {
    fn sqrrt(&self) -> isize {
        sqrt_floor_u128(*self as u128) as isize
    }
}

impl UnitValue for isize {
    fn unit_value() -> isize {
        1
    }
}

impl Scalar for u8 {
    open spec fn val(self) -> int {
        self as int
    }

    open spec fn min_value() -> int {
        u8::MIN as int
    }

    open spec fn max_value() -> int {
        u8::MAX as int
    }

    proof fn lemma_bounds(self) {
    }

    fn zero() -> u8 {
        0
    }

    fn plus(self, rhs: u8) -> u8 {
        self + rhs
    }

    fn minus(self, rhs: u8) -> u8 {
        self - rhs
    }

    fn times(self, rhs: u8) -> u8 {
        self * rhs
    }

    fn checked_plus(self, rhs: u8) -> Option<u8> {
        self.checked_add(rhs)
    }

    fn checked_minus(self, rhs: u8) -> Option<u8> {
        self.checked_sub(rhs)
    }

    fn checked_times(self, rhs: u8) -> Option<u8> {
        self.checked_mul(rhs)
    }

    fn quot(self, rhs: u8) -> u8 {
        self / rhs
    }
}

impl Sqrrt for u8 {
    fn sqrrt(&self) -> u8 {
        sqrt_floor_u128(*self as u128) as u8
    }
}

impl UnitValue for u8 {
    fn unit_value() -> u8 {
        1
    }
}

impl Scalar for u16 {
    open spec fn val(self) -> int {
        self as int
    }

    open spec fn min_value() -> int {
        u16::MIN as int
    }

    open spec fn max_value() -> int {
        u16::MAX as int
    }

    proof fn lemma_bounds(self) {
    }

    fn zero() -> u16 {
        0
    }

    fn plus(self, rhs: u16) -> u16 {
        self + rhs
    }

    fn minus(self, rhs: u16) -> u16 {
        self - rhs
    }

    fn times(self, rhs: u16) -> u16 {
        self * rhs
    }

    fn checked_plus(self, rhs: u16) -> Option<u16> {
        self.checked_add(rhs)
    }

    fn checked_minus(self, rhs: u16) -> Option<u16> {
        self.checked_sub(rhs)
    }

    fn checked_times(self, rhs: u16) -> Option<u16> {
        self.checked_mul(rhs)
    }

    fn quot(self, rhs: u16) -> u16 {
        self / rhs
    }
}

impl Sqrrt for u16 {
    fn sqrrt(&self) -> u16 {
        sqrt_floor_u128(*self as u128) as u16
    }
}

impl UnitValue for u16 {
    fn unit_value() -> u16 {
        1
    }
}

impl Scalar for u32 {
    open spec fn val(self) -> int {
        self as int
    }

    open spec fn min_value() -> int {
        u32::MIN as int
    }

    open spec fn max_value() -> int {
        u32::MAX as int
    }

    proof fn lemma_bounds(self) {
    }

    fn zero() -> u32 {
        0
    }

    fn plus(self, rhs: u32) -> u32 {
        self + rhs
    }

    fn minus(self, rhs: u32) -> u32 {
        self - rhs
    }

    fn times(self, rhs: u32) -> u32 {
        self * rhs
    }

    fn checked_plus(self, rhs: u32) -> Option<u32> {
        self.checked_add(rhs)
    }

    fn checked_minus(self, rhs: u32) -> Option<u32> {
        self.checked_sub(rhs)
    }

    fn checked_times(self, rhs: u32) -> Option<u32> {
        self.checked_mul(rhs)
    }

    fn quot(self, rhs: u32) -> u32 {
        self / rhs
    }
}

impl Sqrrt for u32 {
    fn sqrrt(&self) -> u32 {
        sqrt_floor_u128(*self as u128) as u32
    }
}

impl UnitValue for u32 {
    fn unit_value() -> u32 {
        1
    }
}

impl Scalar for u64 {
    open spec fn val(self) -> int {
        self as int
    }

    open spec fn min_value() -> int {
        u64::MIN as int
    }

    open spec fn max_value() -> int {
        u64::MAX as int
    }

    proof fn lemma_bounds(self) {
    }

    fn zero() -> u64 {
        0
    }

    fn plus(self, rhs: u64) -> u64 {
        self + rhs
    }

    fn minus(self, rhs: u64) -> u64 {
        self - rhs
    }

    fn times(self, rhs: u64) -> u64 {
        self * rhs
    }

    fn checked_plus(self, rhs: u64) -> Option<u64> {
        self.checked_add(rhs)
    }

    fn checked_minus(self, rhs: u64) -> Option<u64> {
        self.checked_sub(rhs)
    }

    fn checked_times(self, rhs: u64) -> Option<u64> {
        self.checked_mul(rhs)
    }

    fn quot(self, rhs: u64) -> u64 {
        self / rhs
    }
}

impl Sqrrt for u64 {
    fn sqrrt(&self) -> u64 {
        sqrt_floor_u128(*self as u128) as u64
    }
}

impl UnitValue for u64 {
    fn unit_value() -> u64 {
        1
    }
}

impl Scalar for u128 {
    open spec fn val(self) -> int {
        self as int
    }

    open spec fn min_value() -> int {
        u128::MIN as int
    }

    open spec fn max_value() -> int {
        u128::MAX as int
    }

    proof fn lemma_bounds(self) {
    }

    fn zero() -> u128 {
        0
    }

    fn plus(self, rhs: u128) -> u128 {
        self + rhs
    }

    fn minus(self, rhs: u128) -> u128 {
        self - rhs
    }

    fn times(self, rhs: u128) -> u128 {
        self * rhs
    }

    fn checked_plus(self, rhs: u128) -> Option<u128> {
        self.checked_add(rhs)
    }

    fn checked_minus(self, rhs: u128) -> Option<u128> {
        self.checked_sub(rhs)
    }

    fn checked_times(self, rhs: u128) -> Option<u128> {
        self.checked_mul(rhs)
    }

    fn quot(self, rhs: u128) -> u128 {
        self / rhs
    }
}

impl Sqrrt for u128 {
    fn sqrrt(&self) -> u128 {
        sqrt_floor_u128(*self)
    }
}

impl UnitValue for u128 {
    fn unit_value() -> u128 {
        1
    }
}

impl Scalar for usize {
    open spec fn val(self) -> int {
        self as int
    }

    open spec fn min_value() -> int {
        usize::MIN as int
    }

    open spec fn max_value() -> int {
        usize::MAX as int
    }

    proof fn lemma_bounds(self) {
    }

    fn zero() -> usize {
        0
    }

    fn plus(self, rhs: usize) -> usize {
        self + rhs
    }

    fn minus(self, rhs: usize) -> usize {
        self - rhs
    }

    fn times(self, rhs: usize) -> usize {
        self * rhs
    }

    fn checked_plus(self, rhs: usize) -> Option<usize> {
        self.checked_add(rhs)
    }

    fn checked_minus(self, rhs: usize) -> Option<usize> {
        self.checked_sub(rhs)
    }

    fn checked_times(self, rhs: usize) -> Option<usize> {
        self.checked_mul(rhs)
    }

    fn quot(self, rhs: usize) -> usize {
        self / rhs
    }
}

impl Sqrrt for usize {
    fn sqrrt(&self) -> usize {
        sqrt_floor_u128(*self as u128) as usize
    }
}

impl UnitValue for usize {
    fn unit_value() -> usize {
        1
    }
}

} // verus!
