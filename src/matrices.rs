//! Square matrices, stored as rows of vectors.
use vstd::prelude::*;
use crate::math::{Scalar, ScalarMath, UnitValue, in_range};
use crate::model::{
    all_fit, column, dot, dot_fits, grid_add, grid_fits, grid_minus, grid_plus, grid_quot,
    grid_sub, grid_times, ident, is_square, mat_mul, mat_mul_fits, mat_vec, plane_rotation,
    rotation, rotation_fits, scaling, seq_add, seq_sub, transpose, translation, vals, zeros,
};
use crate::vectors::{Vec3, VecN, lemma_vec_len};

verus! {

broadcast use lemma_vec_len;

/// The models of a sequence of vectors.
pub open spec fn views<T: Scalar, const N: usize>(s: Seq<VecN<T, N>>) -> Seq<Seq<int>> {
    s.map_values(|v: VecN<T, N>| v@)
}

/// The integers of a sequence of arrays, row by row.
pub open spec fn grid_vals<T: Scalar, const N: usize>(a: Seq<[T; N]>) -> Seq<Seq<int>> {
    a.map_values(|row: [T; N]| vals(row@))
}

/// An `N` by `N` matrix of scalars of type `T`, stored as `N` row vectors.
///
/// Its model (`@`) is the sequence of the models of its rows: entry `(i, j)`
/// is `m@[i][j]`.
#[derive(Clone, Copy, Debug, PartialEq, Eq)]
pub struct MatN<T, const N: usize> {
    data: [VecN<T, N>; N],
}

pub type Mat2<T> = MatN<T, 2>;

pub type Mat3<T> = MatN<T, 3>;

pub type Mat4<T> = MatN<T, 4>;

impl<T: Scalar, const N: usize> View for MatN<T, N> {
    type V = Seq<Seq<int>>;

    closed spec fn view(&self) -> Seq<Seq<int>> {
        views(self.data@)
    }
}

/// A matrix's model has `N` rows of `N` entries.
pub proof fn lemma_mat_square<T: Scalar, const N: usize>(m: MatN<T, N>)
    ensures
        is_square(m@, N as nat),
{
}

impl<T: Scalar, const N: usize> MatN<T, N> {
    /// The matrix of zeros.
    pub fn new() -> (r: Self)
        ensures
            r@ == Seq::new(N as nat, |i: int| zeros(N as nat)),
    {
        let r = Self { data: [VecN::new(); N] };
        assert(r@ =~= Seq::new(N as nat, |i: int| zeros(N as nat)));
        r
    }

    /// The matrix whose entries all are `value`.
    pub fn new_with(value: T) -> (r: Self)
        ensures
            r@ == Seq::new(N as nat, |i: int| Seq::new(N as nat, |j: int| value.val())),
    {
        let r = Self { data: [VecN::new_with(value); N] };
        assert(r@ =~= Seq::new(N as nat, |i: int| Seq::new(N as nat, |j: int| value.val())));
        r
    }

    /// A matrix whose rows are copies of `data`.
    pub fn from_mat_vec(data: &[VecN<T, N>; N]) -> (r: Self)
        ensures
            r@ == views(data@),
    {
        Self { data: *data }
    }

    /// A matrix whose rows are copies of the arrays of `data`.
    pub fn from_mat(data: &[[T; N]; N]) -> (r: Self)
        ensures
            r@ == grid_vals(data@),
    {
        let mut result = Self::new();
        let mut i: usize = 0;
        while i < N
            invariant
                i <= N,
                forall|k: int| 0 <= k < i ==> #[trigger] result.data@[k]@ == vals(data@[k]@),
            decreases N - i,
        {
            result.data[i] = VecN::from_array(&data[i]);
            i += 1;
        }
        assert(result@ =~= grid_vals(data@));
        result
    }

    /// The rows.
    pub fn to_mat_vec(&self) -> (r: &[VecN<T, N>; N])
        ensures
            views(r@) == self@,
    {
        &self.data
    }

    /// The rows, as an array that can be written through.
    pub fn to_mut_mat_vec(&mut self) -> (r: &mut [VecN<T, N>; N])
        ensures
            views(r@) == old(self)@,
            views(final(r)@) == final(self)@,
    {
        &mut self.data
    }

    /// A copy of the entries as an array of row arrays.
    pub fn to_mat(&self) -> (r: [[T; N]; N])
        ensures
            grid_vals(r@) == self@,
    {
        let mut result = [[T::zero(); N]; N];
        let mut i: usize = 0;
        while i < N
            invariant
                i <= N,
                forall|k: int| 0 <= k < i ==> vals(#[trigger] result@[k]@) == self.data@[k]@,
            decreases N - i,
        {
            result[i] = *self.data[i].to_arr();
            i += 1;
        }
        assert(grid_vals(result@) =~= self@);
        result
    }

    /// Sets every entry to `value`.
    pub fn fill(&mut self, value: T)
        ensures
            final(self)@ == Seq::new(N as nat, |i: int| Seq::new(N as nat, |j: int| value.val())),
    {
        self.data = [VecN::new_with(value); N];
        assert(self@ =~= Seq::new(N as nat, |i: int| Seq::new(N as nat, |j: int| value.val())));
    }

    /// An iterator over the rows, in order.
    pub fn iter<'a>(&'a self) -> (r: std::slice::Iter<'a, VecN<T, N>>)
        ensures
            views(vstd::std_specs::iter::IteratorSpec::remaining(&r).unref()) == self@,
    {
        self.data.iter()
    }

    /// An iterator over the rows that can write them.
    pub fn iter_mut<'a>(&'a mut self) -> std::slice::IterMut<'a, VecN<T, N>> {
        self.data.iter_mut()
    }

    /// Row `i`.
    pub fn row(&self, i: usize) -> (r: VecN<T, N>)
        requires
            i < N,
        ensures
            r@ == self@[i as int],
    {
        self.data[i]
    }

    /// The entry in row `i` and column `j`.
    pub fn get(&self, i: usize, j: usize) -> (r: T)
        requires
            i < N,
            j < N,
        ensures
            r.val() == self@[i as int][j as int],
    {
        self.data[i].get(j)
    }

    /// Writes `value` in row `i` and column `j`.
    pub fn set(&mut self, i: usize, j: usize, value: T)
        requires
            i < N,
            j < N,
        ensures
            final(self)@ == old(self)@.update(
                i as int,
                old(self)@[i as int].update(j as int, value.val()),
            ),
    {
        let mut row = self.data[i];
        row.set(j, value);
        self.data[i] = row;
        assert(self@ =~= old(self)@.update(i as int, old(self)@[i as int].update(j as int, value.val())));
    }

    /// Column `j`, as a vector.
    pub(crate) fn column(&self, j: usize) -> (r: VecN<T, N>)
        requires
            j < N,
        ensures
            r@ == column(self@, j as int),
    {
        let mut r = VecN::new();
        let mut k: usize = 0;
        while k < N
            invariant
                k <= N,
                j < N,
                forall|a: int| 0 <= a < k ==> #[trigger] r@[a] == self@[a][j as int],
            decreases N - k,
        {
            r.set(k, self.data[k].get(j));
            k += 1;
        }
        assert(r@ =~= column(self@, j as int));
        r
    }

    /// The transpose: entry `(i, j)` of the result is entry `(j, i)` of `self`.
    pub fn transpose(&self) -> (r: Self)
        ensures
            r@ == transpose(self@),
    {
        let mut result = *self;
        let mut i: usize = 0;
        while i < N
            invariant
                i <= N,
                forall|k: int| 0 <= k < i ==> #[trigger] result.data@[k]@ == column(self@, k),
            decreases N - i,
        {
            result.data[i] = self.column(i);
            i += 1;
        }
        assert(result@ =~= transpose(self@));
        result
    }

    /// Entry-wise sum, row by row.
    pub fn add(self, rhs: Self) -> (r: Self)
        requires
            grid_fits::<T>(grid_add(self@, rhs@)),
        ensures
            r@ == grid_add(self@, rhs@),
    {
        let mut result = self;
        let mut i: usize = 0;
        while i < N
            invariant
                i <= N,
                grid_fits::<T>(grid_add(self@, rhs@)),
                forall|k: int| 0 <= k < i ==> #[trigger] result.data@[k]@ == seq_add(self@[k], rhs@[k]),
            decreases N - i,
        {
            assert(all_fit::<T>(grid_add(self@, rhs@)[i as int]));
            result.data[i] = self.data[i].add(rhs.data[i]);
            i += 1;
        }
        assert(result@ =~= grid_add(self@, rhs@));
        result
    }

    /// Entry-wise difference, row by row.
    pub fn sub(self, rhs: Self) -> (r: Self)
        requires
            grid_fits::<T>(grid_sub(self@, rhs@)),
        ensures
            r@ == grid_sub(self@, rhs@),
    {
        let mut result = self;
        let mut i: usize = 0;
        while i < N
            invariant
                i <= N,
                grid_fits::<T>(grid_sub(self@, rhs@)),
                forall|k: int| 0 <= k < i ==> #[trigger] result.data@[k]@ == seq_sub(self@[k], rhs@[k]),
            decreases N - i,
        {
            assert(all_fit::<T>(grid_sub(self@, rhs@)[i as int]));
            result.data[i] = self.data[i].sub(rhs.data[i]);
            i += 1;
        }
        assert(result@ =~= grid_sub(self@, rhs@));
        result
    }

    /// The matrix product: entry `(i, j)` is the sum over `k` of
    /// `self[i][k] * rhs[k][j]`, accumulated in `T`.
    pub fn mul(self, rhs: Self) -> (r: Self)
        requires
            mat_mul_fits::<T>(self@, rhs@),
        ensures
            r@ == mat_mul(self@, rhs@),
    {
        self.checked_mul(rhs).unwrap()
    }
}

impl<T: Scalar, const N: usize> MatN<T, N> {
    /// The matrix product where every step stays in range of `T`, and
    /// `None` otherwise.
    pub fn checked_mul(self, rhs: Self) -> (r: Option<Self>)
        ensures
            r is Some <==> mat_mul_fits::<T>(self@, rhs@),
            r is Some ==> r->0@ == mat_mul(self@, rhs@),
    {
        let mut result = Self::new();
        let mut i: usize = 0;
        while i < N
            invariant
                i <= N,
                forall|a: int, b: int|
                    0 <= a < i && 0 <= b < N ==> #[trigger] dot_fits::<T>(self@[a], column(rhs@, b)),
                forall|k: int| 0 <= k < i ==> #[trigger] result.data@[k]@ == mat_mul(self@, rhs@)[k],
            decreases N - i,
        {
            let mut row = VecN::new();
            let mut j: usize = 0;
            while j < N
                invariant
                    i < N,
                    j <= N,
                    forall|a: int, b: int|
                        0 <= a < i && 0 <= b < N ==> #[trigger] dot_fits::<T>(self@[a], column(rhs@, b)),
                    forall|b: int| 0 <= b < j ==> #[trigger] dot_fits::<T>(self@[i as int], column(rhs@, b)),
                    forall|b: int| 0 <= b < j ==> #[trigger] row@[b] == dot(self@[i as int], column(rhs@, b)),
                decreases N - j,
            {
                let col = rhs.column(j);
                match self.data[i].checked_dot(&col) {
                    None => {
                        assert(!dot_fits::<T>(self@[i as int], column(rhs@, j as int)));
                        return None;
                    },
                    Some(v) => {
                        row.set(j, v);
                    },
                }
                j += 1;
            }
            assert(row@ =~= mat_mul(self@, rhs@)[i as int]);
            result.data[i] = row;
            i += 1;
        }
        assert(result@ =~= mat_mul(self@, rhs@));
        Some(result)
    }
}

impl<T: Scalar, const N: usize> Default for MatN<T, N> {
    /// The matrix of zeros.
    fn default() -> (r: Self)
        ensures
            r@ == Seq::new(N as nat, |i: int| zeros(N as nat)),
    {
        Self::new()
    }
}

impl<T: Scalar, const N: usize> ScalarMath<T> for MatN<T, N> {
    open spec fn grid(&self) -> Seq<Seq<int>> {
        self@
    }

    fn sum_scalar(&self, value: T) -> (r: Self) {
        let mut result = *self;
        let mut i: usize = 0;
        while i < N
            invariant
                i <= N,
                grid_fits::<T>(grid_plus(self@, value.val())),
                forall|k: int| 0 <= k < i ==> #[trigger] result.data@[k]@ == grid_plus(self@, value.val())[k],
            decreases N - i,
        {
            assert(all_fit::<T>(grid_plus(self@, value.val())[i as int]));
            assert(self.data[i as int].grid()[0] == self@[i as int]);
            assert(grid_plus(self.data[i as int].grid(), value.val())[0] == grid_plus(self@, value.val())[i as int]);
            result.data[i] = self.data[i].sum_scalar(value);
            i += 1;
        }
        assert(result@ =~= grid_plus(self@, value.val()));
        result
    }

    fn sub_scalar(&self, value: T) -> (r: Self) {
        let mut result = *self;
        let mut i: usize = 0;
        while i < N
            invariant
                i <= N,
                grid_fits::<T>(grid_minus(self@, value.val())),
                forall|k: int| 0 <= k < i ==> #[trigger] result.data@[k]@ == grid_minus(self@, value.val())[k],
            decreases N - i,
        {
            assert(all_fit::<T>(grid_minus(self@, value.val())[i as int]));
            assert(self.data[i as int].grid()[0] == self@[i as int]);
            assert(grid_minus(self.data[i as int].grid(), value.val())[0] == grid_minus(self@, value.val())[i as int]);
            result.data[i] = self.data[i].sub_scalar(value);
            i += 1;
        }
        assert(result@ =~= grid_minus(self@, value.val()));
        result
    }

    fn mul_scalar(&self, value: T) -> (r: Self) {
        let mut result = *self;
        let mut i: usize = 0;
        while i < N
            invariant
                i <= N,
                grid_fits::<T>(grid_times(self@, value.val())),
                forall|k: int| 0 <= k < i ==> #[trigger] result.data@[k]@ == grid_times(self@, value.val())[k],
            decreases N - i,
        {
            assert(all_fit::<T>(grid_times(self@, value.val())[i as int]));
            assert(self.data[i as int].grid()[0] == self@[i as int]);
            assert(grid_times(self.data[i as int].grid(), value.val())[0] == grid_times(self@, value.val())[i as int]);
            result.data[i] = self.data[i].mul_scalar(value);
            i += 1;
        }
        assert(result@ =~= grid_times(self@, value.val()));
        result
    }

    fn div_scalar(&self, value: T) -> (r: Self) {
        let mut result = *self;
        let mut i: usize = 0;
        while i < N
            invariant
                i <= N,
                value.val() != 0,
                grid_fits::<T>(grid_quot(self@, value.val())),
                forall|k: int| 0 <= k < i ==> #[trigger] result.data@[k]@ == grid_quot(self@, value.val())[k],
            decreases N - i,
        {
            assert(all_fit::<T>(grid_quot(self@, value.val())[i as int]));
            assert(self.data[i as int].grid()[0] == self@[i as int]);
            assert(grid_quot(self.data[i as int].grid(), value.val())[0] == grid_quot(self@, value.val())[i as int]);
            result.data[i] = self.data[i].div_scalar(value);
            i += 1;
        }
        assert(result@ =~= grid_quot(self@, value.val()));
        result
    }
}

/// Types with a multiplicative identity.
pub trait Identity: Sized {
    /// Whether `self` is the identity.
    spec fn is_identity(&self) -> bool;

    /// The identity.
    fn identity() -> (r: Self)
        ensures
            r.is_identity(),
    ;
}

impl<T: UnitValue, const N: usize> Identity for MatN<T, N> {
    open spec fn is_identity(&self) -> bool {
        self@ == ident(N as nat)
    }

    /// Ones on the main diagonal, zeros elsewhere.
    fn identity() -> (r: Self) {
        let mut result = Self::new();
        let one = T::unit_value();
        let mut i: usize = 0;
        while i < N
            invariant
                i <= N,
                one.val() == 1,
                forall|k: int| 0 <= k < i ==> #[trigger] result@[k] == ident(N as nat)[k],
                forall|k: int| i <= k < N ==> #[trigger] result@[k] == zeros(N as nat),
            decreases N - i,
        {
            result.set(i, i, one);
            assert(result@[i as int] =~= ident(N as nat)[i as int]);
            i += 1;
        }
        assert(result@ =~= ident(N as nat));
        result
    }
}

/// The product of a matrix and a vector.
pub trait MatVecMath<T: Scalar, const N: usize>: Sized {
    /// The model of the product with a vector whose model is `v`.
    spec fn spec_mul_mat_vec(&self, v: Seq<int>) -> Seq<int>;

    /// Whether the product with `v` can be accumulated in `T`.
    spec fn mat_vec_in_range(&self, v: Seq<int>) -> bool;

    /// Entry `i` of the result is the sum over `j` of `self[i][j] * vec[j]`.
    fn mul_mat_vec(&self, vec: &VecN<T, N>) -> (r: VecN<T, N>)
        requires
            self.mat_vec_in_range(vec@),
        ensures
            r@ == self.spec_mul_mat_vec(vec@),
    ;
}

impl<T: Scalar, const N: usize> MatVecMath<T, N> for MatN<T, N> {
    open spec fn spec_mul_mat_vec(&self, v: Seq<int>) -> Seq<int> {
        mat_vec(self@, v)
    }

    open spec fn mat_vec_in_range(&self, v: Seq<int>) -> bool {
        forall|i: int| 0 <= i < N ==> #[trigger] dot_fits::<T>(self@[i], v)
    }

    fn mul_mat_vec(&self, vec: &VecN<T, N>) -> (r: VecN<T, N>) {
        let mut result = VecN::new();
        let mut i: usize = 0;
        while i < N
            invariant
                i <= N,
                self.mat_vec_in_range(vec@),
                forall|k: int| 0 <= k < i ==> #[trigger] result@[k] == dot(self@[k], vec@),
            decreases N - i,
        {
            assert(dot_fits::<T>(self@[i as int], vec@));
            result.set(i, self.data[i].dot_product(vec));
            i += 1;
        }
        assert(result@ =~= mat_vec(self@, vec@));
        result
    }
}

/// Builders of affine transforms in homogeneous coordinates.
impl<T: UnitValue, const N: usize> MatN<T, N> {
    /// The translation by `vec`: the identity with `vec` in the last column
    /// above the diagonal (`Mat3` takes a `Vec2`, `Mat4` a `Vec3`).
    ///
    /// The result does not depend on `self`.
    pub fn translate<const M: usize>(&self, vec: &VecN<T, M>) -> (r: Self)
        requires
            M + 1 == N,
        ensures
            r@ == translation(N as nat, vec@),
    {
        let mut result = Self::identity();
        let mut i: usize = 0;
        while i < M
            invariant
                i <= M,
                M + 1 == N,
                forall|a: int| 0 <= a < N ==> (#[trigger] result@[a]).len() == N,
                result@.len() == N,
                forall|a: int, b: int|
                    0 <= a < N && 0 <= b < N ==> #[trigger] result@[a][b] == if b == M && a < i {
                        vec@[a]
                    } else if a == b {
                        1int
                    } else {
                        0int
                    },
            decreases M - i,
        {
            result.set(i, M, vec.get(i));
            i += 1;
        }
        assert(result@ =~~= translation(N as nat, vec@));
        result
    }

    /// The scaling by `values`: the identity with `values` on the diagonal,
    /// leaving the homogeneous last entry at 1 (`Mat3` takes the first two
    /// of `values`, `Mat4` all three).
    ///
    /// The result does not depend on `self`.
    pub fn scale(&self, values: &Vec3<T>) -> (r: Self)
        requires
            N >= 3,
        ensures
            r@ == scaling(N as nat, values@),
    {
        let mut result = Self::identity();
        result.set(0, 0, values.get(0));
        result.set(1, 1, values.get(1));
        if N > 3 {
            result.set(2, 2, values.get(2));
        }
        assert(result@ =~~= scaling(N as nat, values@));
        result
    }

    /// `self` times the rotation about the three axes in turn, given the
    /// cosine and sine of the angle about each axis: the turns of planes
    /// (1, 2), (2, 0) and (0, 1) are multiplied in that order, and the
    /// product is multiplied onto `self` from the right.
    pub fn rotate_by(&self, cos: &Vec3<T>, sin: &Vec3<T>) -> (r: Self)
        requires
            N >= 3,
            rotation_fits::<T>(N as nat, self@, cos@, sin@),
        ensures
            r@ == mat_mul(self@, rotation(N as nat, cos@, sin@)),
    {
        let x = Self::plane_turn(1, 2, cos.get(0), sin.get(0));
        let y = Self::plane_turn(2, 0, cos.get(1), sin.get(1));
        let z = Self::plane_turn(0, 1, cos.get(2), sin.get(2));
        self.mul(x.mul(y).mul(z))
    }

    /// `rotate_by` where every step stays in range of `T`, and `None`
    /// otherwise.
    pub fn try_rotate_by(&self, cos: &Vec3<T>, sin: &Vec3<T>) -> (r: Option<Self>)
        requires
            N >= 3,
        ensures
            r is Some <==> rotation_fits::<T>(N as nat, self@, cos@, sin@),
            r is Some ==> r->0@ == mat_mul(self@, rotation(N as nat, cos@, sin@)),
    {
        let zero = T::zero();
        let mut k: usize = 0;
        while k < 3
            invariant
                k <= 3,
                zero.val() == 0,
                forall|a: int| 0 <= a < k ==> in_range::<T>(-#[trigger] sin@[a]),
            decreases 3 - k,
        {
            if zero.checked_minus(sin.get(k)).is_none() {
                return None;
            }
            k += 1;
        }
        let x = Self::plane_turn(1, 2, cos.get(0), sin.get(0));
        let y = Self::plane_turn(2, 0, cos.get(1), sin.get(1));
        let z = Self::plane_turn(0, 1, cos.get(2), sin.get(2));
        match x.checked_mul(y) {
            None => None,
            Some(xy) => match xy.checked_mul(z) {
                None => None,
                Some(xyz) => self.checked_mul(xyz),
            },
        }
    }

    /// The identity with the plane of axes `p` and `q` turned by the angle
    /// whose cosine is `c` and sine is `s`.
    fn plane_turn(p: usize, q: usize, c: T, s: T) -> (r: Self)
        requires
            p < N,
            q < N,
            p != q,
            in_range::<T>(-s.val()),
        ensures
            r@ == plane_rotation(N as nat, p as int, q as int, c.val(), s.val()),
    {
        let mut result = Self::identity();
        let zero = T::zero();
        result.set(p, p, c);
        result.set(p, q, zero.minus(s));
        result.set(q, p, s);
        result.set(q, q, c);
        assert(result@ =~~= plane_rotation(N as nat, p as int, q as int, c.val(), s.val()));
        result
    }
}

} // verus!
