//! The mathematical model: a vector is a `Seq<int>`, a matrix a `Seq<Seq<int>>`
//! of rows.
use vstd::prelude::*;
use crate::math::{Scalar, in_range, trunc_div};

verus! {

/// The integers that a sequence of scalars stands for.
pub open spec fn vals<T: Scalar>(s: Seq<T>) -> Seq<int> {
    s.map_values(|x: T| x.val())
}

/// Whether every entry of `a` can be held by `T`.
pub open spec fn all_fit<T: Scalar>(a: Seq<int>) -> bool {
    forall|i: int| 0 <= i < a.len() ==> #[trigger] in_range::<T>(a[i])
}

/// The vector of `n` zeros.
pub open spec fn zeros(n: nat) -> Seq<int> {
    Seq::new(n, |i: int| 0)
}

pub open spec fn seq_add(a: Seq<int>, b: Seq<int>) -> Seq<int> {
    Seq::new(a.len(), |i: int| a[i] + b[i])
}

pub open spec fn seq_sub(a: Seq<int>, b: Seq<int>) -> Seq<int> {
    Seq::new(a.len(), |i: int| a[i] - b[i])
}

pub open spec fn seq_mul(a: Seq<int>, b: Seq<int>) -> Seq<int> {
    Seq::new(a.len(), |i: int| a[i] * b[i])
}

pub open spec fn seq_div(a: Seq<int>, b: Seq<int>) -> Seq<int> {
    Seq::new(a.len(), |i: int| trunc_div(a[i], b[i]))
}

pub open spec fn seq_neg(a: Seq<int>) -> Seq<int> {
    Seq::new(a.len(), |i: int| -a[i])
}

/// `s` added to every entry.
pub open spec fn seq_plus(a: Seq<int>, s: int) -> Seq<int> {
    Seq::new(a.len(), |i: int| a[i] + s)
}

/// `s` subtracted from every entry.
pub open spec fn seq_minus(a: Seq<int>, s: int) -> Seq<int> {
    Seq::new(a.len(), |i: int| a[i] - s)
}

/// Every entry multiplied by `s`.
pub open spec fn seq_times(a: Seq<int>, s: int) -> Seq<int> {
    Seq::new(a.len(), |i: int| a[i] * s)
}

/// Every entry divided by `s`, rounding toward zero.
pub open spec fn seq_quot(a: Seq<int>, s: int) -> Seq<int> {
    Seq::new(a.len(), |i: int| trunc_div(a[i], s))
}

/// The sum of `a[i] * b[i]` over the first `k` positions.
pub open spec fn dot_upto(a: Seq<int>, b: Seq<int>, k: int) -> int
    decreases k,
{
    if k <= 0 {
        0
    } else {
        dot_upto(a, b, k - 1) + a[k - 1] * b[k - 1]
    }
}

/// The dot product: the sum of `a[i] * b[i]` over the positions of `a`.
pub open spec fn dot(a: Seq<int>, b: Seq<int>) -> int {
    dot_upto(a, b, a.len() as int)
}

/// Whether accumulating the dot product in `T`, one product after another,
/// stays in range: every product and every partial sum fits.
pub open spec fn dot_fits<T: Scalar>(a: Seq<int>, b: Seq<int>) -> bool {
    forall|k: int|
        0 <= k < a.len() ==> in_range::<T>(#[trigger] (a[k] * b[k])) && in_range::<T>(
            dot_upto(a, b, k + 1),
        )
}

/// The right-handed cross product of two 3-vectors.
pub open spec fn cross(a: Seq<int>, b: Seq<int>) -> Seq<int> {
    seq![a[1] * b[2] - a[2] * b[1], a[2] * b[0] - a[0] * b[2], a[0] * b[1] - a[1] * b[0]]
}

/// Whether every product and difference of the cross product fits in `T`.
pub open spec fn cross_fits<T: Scalar>(a: Seq<int>, b: Seq<int>) -> bool {
    &&& in_range::<T>(a[1] * b[2])
    &&& in_range::<T>(a[2] * b[1])
    &&& in_range::<T>(a[2] * b[0])
    &&& in_range::<T>(a[0] * b[2])
    &&& in_range::<T>(a[0] * b[1])
    &&& in_range::<T>(a[1] * b[0])
    &&& all_fit::<T>(cross(a, b))
}

/// Whether `m` has `n` rows of `n` entries.
pub open spec fn is_square(m: Seq<Seq<int>>, n: nat) -> bool {
    m.len() == n && forall|i: int| 0 <= i < n ==> (#[trigger] m[i]).len() == n
}

/// Whether every entry of every row can be held by `T`.
pub open spec fn grid_fits<T: Scalar>(g: Seq<Seq<int>>) -> bool {
    forall|i: int| 0 <= i < g.len() ==> #[trigger] all_fit::<T>(g[i])
}

pub open spec fn grid_add(a: Seq<Seq<int>>, b: Seq<Seq<int>>) -> Seq<Seq<int>> {
    Seq::new(a.len(), |i: int| seq_add(a[i], b[i]))
}

pub open spec fn grid_sub(a: Seq<Seq<int>>, b: Seq<Seq<int>>) -> Seq<Seq<int>> {
    Seq::new(a.len(), |i: int| seq_sub(a[i], b[i]))
}

pub open spec fn grid_plus(g: Seq<Seq<int>>, s: int) -> Seq<Seq<int>> {
    Seq::new(g.len(), |i: int| seq_plus(g[i], s))
}

pub open spec fn grid_minus(g: Seq<Seq<int>>, s: int) -> Seq<Seq<int>> {
    Seq::new(g.len(), |i: int| seq_minus(g[i], s))
}

pub open spec fn grid_times(g: Seq<Seq<int>>, s: int) -> Seq<Seq<int>> {
    Seq::new(g.len(), |i: int| seq_times(g[i], s))
}

pub open spec fn grid_quot(g: Seq<Seq<int>>, s: int) -> Seq<Seq<int>> {
    Seq::new(g.len(), |i: int| seq_quot(g[i], s))
}

/// Column `j` of `m`.
pub open spec fn column(m: Seq<Seq<int>>, j: int) -> Seq<int> {
    Seq::new(m.len(), |k: int| m[k][j])
}

/// The transpose: entry `(i, j)` is entry `(j, i)` of `m`.
pub open spec fn transpose(m: Seq<Seq<int>>) -> Seq<Seq<int>> {
    Seq::new(m.len(), |i: int| Seq::new(m.len(), |j: int| m[j][i]))
}

/// The matrix product: entry `(i, j)` is the dot product of row `i` of `a`
/// and column `j` of `b`.
pub open spec fn mat_mul(a: Seq<Seq<int>>, b: Seq<Seq<int>>) -> Seq<Seq<int>> {
    Seq::new(a.len(), |i: int| Seq::new(a.len(), |j: int| dot(a[i], column(b, j))))
}

/// Whether accumulating every entry of `mat_mul(a, b)` in `T` stays in range.
pub open spec fn mat_mul_fits<T: Scalar>(a: Seq<Seq<int>>, b: Seq<Seq<int>>) -> bool {
    forall|i: int, j: int|
        0 <= i < a.len() && 0 <= j < a.len() ==> #[trigger] dot_fits::<T>(a[i], column(b, j))
}

/// The matrix-vector product: entry `i` is the dot product of row `i` and `v`.
pub open spec fn mat_vec(m: Seq<Seq<int>>, v: Seq<int>) -> Seq<int> {
    Seq::new(m.len(), |i: int| dot(m[i], v))
}

/// The `n` by `n` identity.
pub open spec fn ident(n: nat) -> Seq<Seq<int>> {
    Seq::new(n, |i: int| Seq::new(n, |j: int| if i == j { 1int } else { 0int }))
}

/// The identity with the plane of axes `p` and `q` turned by the angle whose
/// cosine is `c` and sine is `s`: `(p, p)` and `(q, q)` hold `c`, `(p, q)`
/// holds `-s` and `(q, p)` holds `s`.
pub open spec fn plane_rotation(n: nat, p: int, q: int, c: int, s: int) -> Seq<Seq<int>> {
    Seq::new(
        n,
        |i: int|
            Seq::new(
                n,
                |j: int|
                    if (i == p && j == p) || (i == q && j == q) {
                        c
                    } else if i == p && j == q {
                        -s
                    } else if i == q && j == p {
                        s
                    } else if i == j {
                        1int
                    } else {
                        0int
                    },
            ),
    )
}

/// The rotation about the three axes in turn: the product of the turns of
/// planes (1, 2), (2, 0) and (0, 1), whose cosines and sines are `c` and `s`.
pub open spec fn rotation(n: nat, c: Seq<int>, s: Seq<int>) -> Seq<Seq<int>> {
    mat_mul(
        mat_mul(plane_rotation(n, 1, 2, c[0], s[0]), plane_rotation(n, 2, 0, c[1], s[1])),
        plane_rotation(n, 0, 1, c[2], s[2]),
    )
}

/// Whether multiplying `m` by the rotation with cosines `c` and sines `s`
/// stays in range of `T`, from negating the sines through every product.
pub open spec fn rotation_fits<T: Scalar>(
    n: nat,
    m: Seq<Seq<int>>,
    c: Seq<int>,
    s: Seq<int>,
) -> bool {
    &&& forall|k: int| 0 <= k < 3 ==> in_range::<T>(-#[trigger] s[k])
    &&& mat_mul_fits::<T>(plane_rotation(n, 1, 2, c[0], s[0]), plane_rotation(n, 2, 0, c[1], s[1]))
    &&& mat_mul_fits::<T>(
        mat_mul(plane_rotation(n, 1, 2, c[0], s[0]), plane_rotation(n, 2, 0, c[1], s[1])),
        plane_rotation(n, 0, 1, c[2], s[2]),
    )
    &&& mat_mul_fits::<T>(m, rotation(n, c, s))
}

/// The identity with `v` in the last column above the diagonal.
pub open spec fn translation(n: nat, v: Seq<int>) -> Seq<Seq<int>> {
    Seq::new(
        n,
        |i: int|
            Seq::new(
                n,
                |j: int|
                    if j == n - 1 && i < n - 1 {
                        v[i]
                    } else if i == j {
                        1int
                    } else {
                        0int
                    },
            ),
    )
}

/// The identity with `v` on the diagonal at the first three places that
/// are not the homogeneous last one: two places for `n == 3`, three for
/// `n >= 4`.
pub open spec fn scaling(n: nat, v: Seq<int>) -> Seq<Seq<int>> {
    Seq::new(
        n,
        |i: int|
            Seq::new(
                n,
                |j: int|
                    if i == j && i < 3 && i < n - 1 {
                        v[i]
                    } else if i == j {
                        1int
                    } else {
                        0int
                    },
            ),
    )
}

} // verus!
