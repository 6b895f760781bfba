use vstd::prelude::*;
use crate::model::{grid_fits, grid_minus, grid_plus, grid_quot, grid_times};

verus! {

/// Whether the integer `v` can be held by the scalar type `T`.
pub open spec fn in_range<T: Scalar>(v: int) -> bool {
    T::min_value() <= v <= T::max_value()
}

/// The magnitude of `a`.
pub open spec fn abs(a: int) -> int {
    if a >= 0 {
        a
    } else {
        -a
    }
}

/// Integer division as the machine performs it: the quotient of the
/// magnitudes, rounded toward zero, carrying the sign of `a * b`.
pub open spec fn trunc_div(a: int, b: int) -> int {
    let q = abs(a) / abs(b);
    if (a < 0) != (b < 0) {
        -q
    } else {
        q
    }
}

/// The integer square root: the largest `r >= 0` with `r * r <= x`
/// (0 when `x` is negative).
pub open spec fn floor_sqrt(x: int) -> int
    decreases x,
{
    if x <= 0 {
        0
    } else {
        let r = floor_sqrt(x - 1);
        if (r + 1) * (r + 1) <= x {
            r + 1
        } else {
            r
        }
    }
}

/// `floor_sqrt(x)` is the root that rounds down.
pub proof fn lemma_floor_sqrt(x: int)
    requires
        x >= 0,
    ensures
        0 <= floor_sqrt(x) <= x,
        floor_sqrt(x) * floor_sqrt(x) <= x < (floor_sqrt(x) + 1) * (floor_sqrt(x) + 1),
    decreases x,
{
    if x > 0 {
        lemma_floor_sqrt(x - 1);
        let r = floor_sqrt(x - 1);
        assert(r * r <= x - 1 < (r + 1) * (r + 1));
        if (r + 1) * (r + 1) <= x {
            assert((r + 1) * (r + 1) <= x < (r + 2) * (r + 2)) by (nonlinear_arith)
                requires
                    x - 1 < (r + 1) * (r + 1),
                    (r + 1) * (r + 1) <= x,
                    r >= 0,
            ;
            assert(r + 1 <= x) by (nonlinear_arith)
                requires
                    (r + 1) * (r + 1) <= x,
                    r >= 0,
            ;
        }
    }
}

/// A root that rounds down is `floor_sqrt`.
pub proof fn lemma_floor_sqrt_unique(x: int, r: int)
    requires
        0 <= r,
        r * r <= x < (r + 1) * (r + 1),
    ensures
        floor_sqrt(x) == r,
{
    lemma_floor_sqrt(x);
    let s = floor_sqrt(x);
    if s < r {
        assert((s + 1) * (s + 1) <= r * r) by (nonlinear_arith)
            requires
                0 <= s < r,
        ;
    }
    if s > r {
        assert((r + 1) * (r + 1) <= s * s) by (nonlinear_arith)
            requires
                0 <= r < s,
        ;
    }
}

/// The capability that vectors and matrices need of their scalar type: an
/// integer value in a bounded range, and exact arithmetic inside that range.
pub trait Scalar: Copy + Sized {
    /// The integer this value stands for.
    spec fn val(self) -> int;

    /// The smallest value the type holds.
    spec fn min_value() -> int;

    /// The largest value the type holds.
    spec fn max_value() -> int;

    /// The range holds 0 and 1, and every value lies in it.
    proof fn lemma_bounds(self)
        ensures
            Self::min_value() <= 0,
            1 <= Self::max_value(),
            Self::min_value() <= self.val() <= Self::max_value(),
    ;

    /// The additive identity, also the default value.
    fn zero() -> (r: Self)
        ensures
            r.val() == 0,
    ;

    fn plus(self, rhs: Self) -> (r: Self)
        requires
            Self::min_value() <= self.val() + rhs.val() <= Self::max_value(),
        ensures
            r.val() == self.val() + rhs.val(),
    ;

    fn minus(self, rhs: Self) -> (r: Self)
        requires
            Self::min_value() <= self.val() - rhs.val() <= Self::max_value(),
        ensures
            r.val() == self.val() - rhs.val(),
    ;

    fn times(self, rhs: Self) -> (r: Self)
        requires
            Self::min_value() <= self.val() * rhs.val() <= Self::max_value(),
        ensures
            r.val() == self.val() * rhs.val(),
    ;

    /// The sum, or `None` where it does not fit.
    fn checked_plus(self, rhs: Self) -> (r: Option<Self>)
        ensures
            r is Some <==> Self::min_value() <= self.val() + rhs.val() <= Self::max_value(),
            r is Some ==> r->0.val() == self.val() + rhs.val(),
    ;

    /// The difference, or `None` where it does not fit.
    fn checked_minus(self, rhs: Self) -> (r: Option<Self>)
        ensures
            r is Some <==> Self::min_value() <= self.val() - rhs.val() <= Self::max_value(),
            r is Some ==> r->0.val() == self.val() - rhs.val(),
    ;

    /// The product, or `None` where it does not fit.
    fn checked_times(self, rhs: Self) -> (r: Option<Self>)
        ensures
            r is Some <==> Self::min_value() <= self.val() * rhs.val() <= Self::max_value(),
            r is Some ==> r->0.val() == self.val() * rhs.val(),
    ;

    /// Division rounding toward zero.
    fn quot(self, rhs: Self) -> (r: Self)
        requires
            rhs.val() != 0,
            Self::min_value() <= trunc_div(self.val(), rhs.val()) <= Self::max_value(),
        ensures
            r.val() == trunc_div(self.val(), rhs.val()),
    ;
}

/// Scalars with a square root; on integers it rounds down.
pub trait Sqrrt: Scalar {
    fn sqrrt(&self) -> (r: Self)
        requires
            self.val() >= 0,
        ensures
            r.val() == floor_sqrt(self.val()),
    ;
}

/// Scalars with a multiplicative unit.
pub trait UnitValue: Scalar {
    fn unit_value() -> (r: Self)
        ensures
            r.val() == 1,
    ;
}

/// With a positive divisor the quotient lies between 0 and the dividend.
pub proof fn lemma_trunc_div_between(a: int, d: int)
    requires
        d >= 1,
    ensures
        a >= 0 ==> 0 <= trunc_div(a, d) <= a,
        a < 0 ==> a <= trunc_div(a, d) <= 0,
{
    vstd::arithmetic::div_mod::lemma_div_is_ordered_by_denominator(abs(a), 1, d);
    vstd::arithmetic::div_mod::lemma_div_pos_is_pos(abs(a), d);
}

/// Arithmetic between a container and one scalar, applied to every entry.
///
/// A container's entries are seen as rows of integers (`grid`); a vector is
/// a single row. Each operation returns a new container and leaves `self`
/// as it was.
pub trait ScalarMath<T: Scalar>: Sized {
    /// The entries, row after row.
    spec fn grid(&self) -> Seq<Seq<int>>;

    /// Adds `value` to every entry.
    fn sum_scalar(&self, value: T) -> (r: Self)
        requires
            grid_fits::<T>(grid_plus(self.grid(), value.val())),
        ensures
            r.grid() == grid_plus(self.grid(), value.val()),
    ;

    /// Subtracts `value` from every entry.
    fn sub_scalar(&self, value: T) -> (r: Self)
        requires
            grid_fits::<T>(grid_minus(self.grid(), value.val())),
        ensures
            r.grid() == grid_minus(self.grid(), value.val()),
    ;

    /// Multiplies every entry by `value`.
    fn mul_scalar(&self, value: T) -> (r: Self)
        requires
            grid_fits::<T>(grid_times(self.grid(), value.val())),
        ensures
            r.grid() == grid_times(self.grid(), value.val()),
    ;

    /// Divides every entry by `value`, rounding toward zero.
    fn div_scalar(&self, value: T) -> (r: Self)
        requires
            value.val() != 0,
            grid_fits::<T>(grid_quot(self.grid(), value.val())),
        ensures
            r.grid() == grid_quot(self.grid(), value.val()),
    ;
}

/// Division of 128-bit signed integers rounding toward zero, computed on
/// the magnitudes.
pub(crate) fn div_toward_zero(a: i128, b: i128) -> (r: i128)
    requires
        b != 0,
        !(a == i128::MIN && b == -1),
    ensures
        r == trunc_div(a as int, b as int),
{
    let ua: u128 = if a >= 0 {
        a as u128
    } else {
        (-(a + 1)) as u128 + 1
    };
    let ub: u128 = if b >= 0 {
        b as u128
    } else {
        (-(b + 1)) as u128 + 1
    };
    let q: u128 = ua / ub;
    proof {
        vstd::arithmetic::div_mod::lemma_fundamental_div_mod(ua as int, ub as int);
        let (x, y, z, m) = (ua as int, ub as int, q as int, (ua % ub) as int);
        assert(x == y * z + m && 0 <= m && y >= 1 && z >= 0 ==> z <= x && (y >= 2 ==> 2 * z
            <= x)) by (nonlinear_arith);
    }
    if (a < 0) != (b < 0) {
        if q == 0 {
            0
        } else {
            -((q - 1) as i128) - 1
        }
    } else {
        q as i128
    }
}

/// The integer square root of a 128-bit value, by bisection.
pub(crate) fn sqrt_floor_u128(x: u128) -> (r: u128)
    ensures
        r == floor_sqrt(x as int),
        r <= x,
{
    let mut lo: u128 = 0;
    let mut hi: u128 = 0x1_0000_0000_0000_0000;
    assert(x < 0x1_0000_0000_0000_0000 * 0x1_0000_0000_0000_0000);
    while hi - lo > 1
        invariant
            lo < hi <= 0x1_0000_0000_0000_0000,
            lo * lo <= x < hi * hi,
        decreases hi - lo,
    {
        let mid: u128 = lo + (hi - lo) / 2;
        assert(mid * mid <= 0xffff_ffff_ffff_ffff * 0xffff_ffff_ffff_ffff) by (nonlinear_arith)
            requires
                mid < 0x1_0000_0000_0000_0000,
        ;
        if mid * mid <= x {
            lo = mid;
        } else {
            hi = mid;
        }
    }
    proof {
        lemma_floor_sqrt_unique(x as int, lo as int);
        lemma_floor_sqrt(x as int);
    }
    lo
}

} // verus!
