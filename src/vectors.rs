//! Fixed-length vectors.
use vstd::prelude::*;
use crate::math::{
    Scalar, ScalarMath, Sqrrt, floor_sqrt, trunc_div, in_range, lemma_floor_sqrt, lemma_trunc_div_between,
};
use crate::model::{
    all_fit, cross, cross_fits, dot, dot_fits, dot_upto, grid_minus, grid_plus,
    grid_quot, grid_times, seq_add, seq_div, seq_minus, seq_mul, seq_plus, seq_quot, seq_sub,
    seq_times, vals, zeros,
};

verus! {

/// A vector of `N` scalars of type `T`.
///
/// Its model (`@`) is the sequence of the `N` integers it holds.
#[derive(Clone, Copy, Debug, PartialEq, Eq)]
pub struct VecN<T, const N: usize> {
    data: [T; N],
}

pub type Vec2<T> = VecN<T, 2>;

pub type Vec3<T> = VecN<T, 3>;

pub type Vec4<T> = VecN<T, 4>;

impl<T: Scalar, const N: usize> View for VecN<T, N> {
    type V = Seq<int>;

    closed spec fn view(&self) -> Seq<int> {
        vals(self.data@)
    }
}

/// A vector's model has exactly `N` entries.
pub broadcast proof fn lemma_vec_len<T: Scalar, const N: usize>(v: VecN<T, N>)
    ensures
        #[trigger] v@.len() == N,
{
}

/// Every entry of a vector's model can be held by `T`.
pub proof fn lemma_vec_fits<T: Scalar, const N: usize>(v: VecN<T, N>)
    ensures
        all_fit::<T>(v@),
{
    assert forall|i: int| 0 <= i < v@.len() implies #[trigger] in_range::<T>(v@[i]) by {
        v.data@[i].lemma_bounds();
    }
}

impl<T: Scalar, const N: usize> VecN<T, N> {
    /// The vector of `N` zeros, the default value of every scalar type here.
    pub fn new() -> (r: Self)
        ensures
            r@ == zeros(N as nat),
    {
        let r = Self { data: [T::zero(); N] };
        assert(r@ =~= zeros(N as nat));
        r
    }

    /// The vector whose `N` entries all are `value`.
    pub fn new_with(value: T) -> (r: Self)
        ensures
            r@ == Seq::new(N as nat, |i: int| value.val()),
    {
        let r = Self { data: [value; N] };
        assert(r@ =~= Seq::new(N as nat, |i: int| value.val()));
        r
    }

    /// A vector holding a copy of `data`.
    pub fn from_array(data: &[T; N]) -> (r: Self)
        ensures
            r@ == vals(data@),
    {
        Self { data: *data }
    }

    /// Sets every entry to `value`.
    pub fn fill(&mut self, value: T)
        ensures
            final(self)@ == Seq::new(N as nat, |i: int| value.val()),
    {
        self.data = [value; N];
        assert(self@ =~= Seq::new(N as nat, |i: int| value.val()));
    }

    /// The entries, as an array.
    pub fn to_arr(&self) -> (r: &[T; N])
        ensures
            vals(r@) == self@,
    {
        &self.data
    }

    /// The entries, as an array that can be written through.
    pub fn to_mut_arr(&mut self) -> (r: &mut [T; N])
        ensures
            vals(r@) == old(self)@,
            vals(final(r)@) == final(self)@,
    {
        &mut self.data
    }

    /// An iterator over the entries, in order.
    pub fn iter<'a>(&'a self) -> (r: std::slice::Iter<'a, T>)
        ensures
            vals(vstd::std_specs::iter::IteratorSpec::remaining(&r).unref()) == self@,
    {
        self.data.iter()
    }

    /// An iterator over the entries that can write them.
    pub fn iter_mut<'a>(&'a mut self) -> std::slice::IterMut<'a, T> {
        self.data.iter_mut()
    }

    /// The entry at position `i`.
    pub fn get(&self, i: usize) -> (r: T)
        requires
            i < N,
        ensures
            r.val() == self@[i as int],
    {
        self.data[i]
    }

    /// Writes `value` at position `i`.
    pub fn set(&mut self, i: usize, value: T)
        requires
            i < N,
        ensures
            final(self)@ == old(self)@.update(i as int, value.val()),
    {
        self.data[i] = value;
        assert(self@ =~= old(self)@.update(i as int, value.val()));
    }

    /// Entry-wise sum.
    pub fn add(self, rhs: Self) -> (r: Self)
        requires
            all_fit::<T>(seq_add(self@, rhs@)),
        ensures
            r@ == seq_add(self@, rhs@),
    {
        let mut result = self;
        let mut i: usize = 0;
        while i < N
            invariant
                i <= N,
                all_fit::<T>(seq_add(self@, rhs@)),
                forall|k: int|
                    0 <= k < i ==> #[trigger] result.data@[k].val() == self.data@[k].val() + rhs.data@[k].val(),
                forall|k: int| i <= k < N ==> #[trigger] result.data@[k] == self.data@[k],
            decreases N - i,
        {
            assert(in_range::<T>(seq_add(self@, rhs@)[i as int]));
            result.data[i] = self.data[i].plus(rhs.data[i]);
            i += 1;
        }
        assert(result@ =~= seq_add(self@, rhs@));
        result
    }

    /// Entry-wise difference.
    pub fn sub(self, rhs: Self) -> (r: Self)
        requires
            all_fit::<T>(seq_sub(self@, rhs@)),
        ensures
            r@ == seq_sub(self@, rhs@),
    {
        let mut result = self;
        let mut i: usize = 0;
        while i < N
            invariant
                i <= N,
                all_fit::<T>(seq_sub(self@, rhs@)),
                forall|k: int|
                    0 <= k < i ==> #[trigger] result.data@[k].val() == self.data@[k].val() - rhs.data@[k].val(),
                forall|k: int| i <= k < N ==> #[trigger] result.data@[k] == self.data@[k],
            decreases N - i,
        {
            assert(in_range::<T>(seq_sub(self@, rhs@)[i as int]));
            result.data[i] = self.data[i].minus(rhs.data[i]);
            i += 1;
        }
        assert(result@ =~= seq_sub(self@, rhs@));
        result
    }

    /// Entry-wise product.
    pub fn mul(self, rhs: Self) -> (r: Self)
        requires
            all_fit::<T>(seq_mul(self@, rhs@)),
        ensures
            r@ == seq_mul(self@, rhs@),
    {
        let mut result = self;
        let mut i: usize = 0;
        while i < N
            invariant
                i <= N,
                all_fit::<T>(seq_mul(self@, rhs@)),
                forall|k: int|
                    0 <= k < i ==> #[trigger] result.data@[k].val() == self.data@[k].val() * rhs.data@[k].val(),
                forall|k: int| i <= k < N ==> #[trigger] result.data@[k] == self.data@[k],
            decreases N - i,
        {
            assert(in_range::<T>(seq_mul(self@, rhs@)[i as int]));
            result.data[i] = self.data[i].times(rhs.data[i]);
            i += 1;
        }
        assert(result@ =~= seq_mul(self@, rhs@));
        result
    }

    /// Entry-wise quotient, rounding toward zero.
    pub fn div(self, rhs: Self) -> (r: Self)
        requires
            forall|i: int| 0 <= i < N ==> #[trigger] rhs@[i] != 0,
            all_fit::<T>(seq_div(self@, rhs@)),
        ensures
            r@ == seq_div(self@, rhs@),
    {
        let mut result = self;
        let mut i: usize = 0;
        while i < N
            invariant
                i <= N,
                forall|i: int| 0 <= i < N ==> #[trigger] rhs@[i] != 0,
                all_fit::<T>(seq_div(self@, rhs@)),
                forall|k: int|
                    0 <= k < i ==> #[trigger] result.data@[k].val() == trunc_div(
                        self.data@[k].val(),
                        rhs.data@[k].val(),
                    ),
                forall|k: int| i <= k < N ==> #[trigger] result.data@[k] == self.data@[k],
            decreases N - i,
        {
            assert(in_range::<T>(seq_div(self@, rhs@)[i as int]));
            assert(rhs@[i as int] != 0);
            result.data[i] = self.data[i].quot(rhs.data[i]);
            i += 1;
        }
        assert(result@ =~= seq_div(self@, rhs@));
        result
    }

    /// The dot product, accumulated in `T`.
    pub(crate) fn dot_product(&self, other: &Self) -> (r: T)
        requires
            dot_fits::<T>(self@, other@),
        ensures
            r.val() == dot(self@, other@),
    {
        self.checked_dot(other).unwrap()
    }

    /// The dot product where every step stays in range of `T`, and `None`
    /// otherwise.
    pub(crate) fn checked_dot(&self, other: &Self) -> (r: Option<T>)
        ensures
            r is Some <==> dot_fits::<T>(self@, other@),
            r is Some ==> r->0.val() == dot(self@, other@),
    {
        let mut acc = T::zero();
        let mut i: usize = 0;
        while i < N
            invariant
                i <= N,
                acc.val() == dot_upto(self@, other@, i as int),
                forall|k: int|
                    0 <= k < i ==> in_range::<T>(#[trigger] (self@[k] * other@[k])) && in_range::<T>(
                        dot_upto(self@, other@, k + 1),
                    ),
            decreases N - i,
        {
            match self.data[i].checked_times(other.data[i]) {
                None => {
                    assert(!in_range::<T>(self@[i as int] * other@[i as int]));
                    return None;
                },
                Some(p) => match acc.checked_plus(p) {
                    None => {
                        assert(in_range::<T>(self@[i as int] * other@[i as int]));
                        return None;
                    },
                    Some(s) => {
                        acc = s;
                    },
                },
            }
            i += 1;
        }
        Some(acc)
    }
}

impl<T: Scalar, const N: usize> Default for VecN<T, N> {
    /// The vector of zeros.
    fn default() -> (r: Self)
        ensures
            r@ == zeros(N as nat),
    {
        Self::new()
    }
}

impl<T: Scalar> VecN<T, 3> {
    /// The right-handed cross product
    /// `[a1*b2 - a2*b1, a2*b0 - a0*b2, a0*b1 - a1*b0]`.
    pub fn cross(&self, other: &Self) -> (r: Self)
        requires
            cross_fits::<T>(self@, other@),
        ensures
            r@ == cross(self@, other@),
    {
        let (a, b) = (&self.data, &other.data);
        assert(in_range::<T>(cross(self@, other@)[0]));
        assert(in_range::<T>(cross(self@, other@)[1]));
        assert(in_range::<T>(cross(self@, other@)[2]));
        let r = Self {
            data: [
                a[1].times(b[2]).minus(a[2].times(b[1])),
                a[2].times(b[0]).minus(a[0].times(b[2])),
                a[0].times(b[1]).minus(a[1].times(b[0])),
            ],
        };
        assert(r@ =~= cross(self@, other@));
        r
    }
}

impl<T: Scalar, const N: usize> ScalarMath<T> for VecN<T, N> {
    open spec fn grid(&self) -> Seq<Seq<int>> {
        seq![self@]
    }

    fn sum_scalar(&self, value: T) -> (r: Self)
        ensures
            r@ == seq_plus(self@, value.val()),
    {
        let w = Self::new_with(value);
        assert(grid_plus(self.grid(), value.val())[0] == seq_plus(self@, value.val()));
        assert(seq_add(self@, w@) =~= seq_plus(self@, value.val()));
        assert(all_fit::<T>(seq_plus(self@, value.val())));
        let r = self.add(w);
        assert(r@ =~= seq_plus(self@, value.val()));
        assert(r.grid() =~= grid_plus(self.grid(), value.val()));
        r
    }

    fn sub_scalar(&self, value: T) -> (r: Self)
        ensures
            r@ == seq_minus(self@, value.val()),
    {
        let w = Self::new_with(value);
        assert(grid_minus(self.grid(), value.val())[0] == seq_minus(self@, value.val()));
        assert(seq_sub(self@, w@) =~= seq_minus(self@, value.val()));
        assert(all_fit::<T>(seq_minus(self@, value.val())));
        let r = self.sub(w);
        assert(r@ =~= seq_minus(self@, value.val()));
        assert(r.grid() =~= grid_minus(self.grid(), value.val()));
        r
    }

    fn mul_scalar(&self, value: T) -> (r: Self)
        ensures
            r@ == seq_times(self@, value.val()),
    {
        let w = Self::new_with(value);
        assert(grid_times(self.grid(), value.val())[0] == seq_times(self@, value.val()));
        assert(seq_mul(self@, w@) =~= seq_times(self@, value.val()));
        assert(all_fit::<T>(seq_times(self@, value.val())));
        let r = self.mul(w);
        assert(r@ =~= seq_times(self@, value.val()));
        assert(r.grid() =~= grid_times(self.grid(), value.val()));
        r
    }

    fn div_scalar(&self, value: T) -> (r: Self)
        ensures
            r@ == seq_quot(self@, value.val()),
    {
        let w = Self::new_with(value);
        assert(grid_quot(self.grid(), value.val())[0] == seq_quot(self@, value.val()));
        assert(seq_div(self@, w@) =~= seq_quot(self@, value.val()));
        assert(all_fit::<T>(seq_quot(self@, value.val())));
        let r = self.div(w);
        assert(r@ =~= seq_quot(self@, value.val()));
        assert(r.grid() =~= grid_quot(self.grid(), value.val()));
        r
    }
}

/// Products of a vector with another and with itself.
pub trait VecMath<T: Scalar>: Sized {
    /// The dot product of the two models.
    spec fn spec_dot(&self, other: &Self) -> int;

    /// Whether the dot product can be accumulated in `T`.
    spec fn dot_in_range(&self, other: &Self) -> bool;

    /// The Euclidean length of the model, rounded as `T` rounds roots.
    spec fn spec_length(&self) -> int;

    /// Whether the length can be computed in `T`.
    spec fn length_in_range(&self) -> bool;

    /// The sum of the products of corresponding entries.
    fn dot(&self, other: &Self) -> (r: T)
        requires
            self.dot_in_range(other),
        ensures
            r.val() == self.spec_dot(other),
    ;

    /// The square root of the sum of the squares of the entries.
    fn length(&self) -> (r: T)
        requires
            self.length_in_range(),
        ensures
            r.val() == self.spec_length(),
    ;
}

impl<T: Sqrrt, const N: usize> VecMath<T> for VecN<T, N> {
    open spec fn spec_dot(&self, other: &Self) -> int {
        dot(self@, other@)
    }

    open spec fn dot_in_range(&self, other: &Self) -> bool {
        dot_fits::<T>(self@, other@)
    }

    open spec fn spec_length(&self) -> int {
        floor_sqrt(dot(self@, self@))
    }

    open spec fn length_in_range(&self) -> bool {
        dot_fits::<T>(self@, self@)
    }

    fn dot(&self, other: &Self) -> (r: T) {
        self.dot_product(other)
    }

    fn length(&self) -> (r: T) {
        let squares = self.dot_product(self);
        proof {
            crate::laws::lemma_dot_self_nonneg(self@, self@.len() as int);
        }
        squares.sqrrt()
    }
}

/// Scaling a vector to unit length.
pub trait Normalize: Sized {
    /// Whether `self` has a nonzero length that can be computed.
    spec fn can_normalize(&self) -> bool;

    /// Whether `self` is `v` with every entry divided by the length of `v`.
    spec fn normalizes(&self, v: &Self) -> bool;

    /// Divides every entry by the length.
    fn normalize(&self) -> (r: Self)
        requires
            self.can_normalize(),
        ensures
            r.normalizes(self),
    ;
}

impl<T: Sqrrt, const N: usize> Normalize for VecN<T, N> {
    open spec fn can_normalize(&self) -> bool {
        dot_fits::<T>(self@, self@) && dot(self@, self@) > 0
    }

    open spec fn normalizes(&self, v: &Self) -> bool {
        self@ == seq_quot(v@, floor_sqrt(dot(v@, v@)))
    }

    fn normalize(&self) -> (r: Self) {
        let len = self.length();
        proof {
            let s = dot(self@, self@);
            lemma_floor_sqrt(s);
            assert(len.val() >= 1) by (nonlinear_arith)
                requires
                    s >= 1,
                    len.val() >= 0,
                    s < (len.val() + 1) * (len.val() + 1),
            ;
            len.lemma_bounds();
            lemma_vec_fits(*self);
            let q = grid_quot(self.grid(), len.val());
            assert forall|i: int| 0 <= i < q.len() implies #[trigger] all_fit::<T>(q[i]) by {
                assert forall|k: int| 0 <= k < q[i].len() implies #[trigger] in_range::<T>(
                    q[i][k],
                ) by {
                    lemma_trunc_div_between(self@[k], len.val());
                    assert(in_range::<T>(self@[k]));
                }
            }
        }
        self.div_scalar(len)
    }
}

} // verus!
