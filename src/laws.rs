//! Laws that relate the operations, stated over the model that their
//! contracts use.
use vstd::prelude::*;
use crate::math::{abs, floor_sqrt, lemma_floor_sqrt, lemma_floor_sqrt_unique, trunc_div};
use crate::model::{
    column, cross, dot, dot_upto, ident, is_square, mat_mul, seq_add, seq_neg, seq_quot, seq_sub,
    seq_times, transpose, zeros,
};

verus! {

/// A sum of squares is never negative.
pub proof fn lemma_dot_self_nonneg(a: Seq<int>, k: int)
    ensures
        dot_upto(a, a, k) >= 0,
    decreases k,
{
    if k > 0 {
        lemma_dot_self_nonneg(a, k - 1);
        assert(a[k - 1] * a[k - 1] >= 0) by (nonlinear_arith);
    }
}

/// Adding then subtracting the same vector gives back the first; addition
/// commutes; and subtraction is undone by adding back.
pub proof fn lemma_add_sub_inverse(a: Seq<int>, b: Seq<int>)
    requires
        a.len() == b.len(),
    ensures
        seq_sub(seq_add(a, b), b) == a,
        seq_add(a, b) == seq_add(b, a),
        seq_add(seq_sub(a, b), b) == a,
{
    assert(seq_sub(seq_add(a, b), b) =~= a);
    assert(seq_add(a, b) =~= seq_add(b, a));
    assert(seq_add(seq_sub(a, b), b) =~= a);
}

/// Dividing by a nonzero scalar undoes multiplying by it.
pub proof fn lemma_mul_div_scalar_inverse(v: Seq<int>, s: int)
    requires
        s != 0,
    ensures
        seq_quot(seq_times(v, s), s) == v,
{
    assert forall|i: int| 0 <= i < v.len() implies #[trigger] trunc_div(v[i] * s, s) == v[i] by {
        let x = v[i];
        assert(abs(x * s) == abs(x) * abs(s)) by (nonlinear_arith);
        assert(abs(s) > 0);
        vstd::arithmetic::div_mod::lemma_div_multiples_vanish(abs(x), abs(s));
        assert(abs(s) * abs(x) == abs(x) * abs(s)) by (nonlinear_arith);
        if x != 0 {
            assert(((x * s) < 0) == ((x < 0) != (s < 0))) by (nonlinear_arith)
                requires
                    x != 0,
                    s != 0,
            ;
        } else {
            assert(x * s == 0) by (nonlinear_arith)
                requires
                    x == 0,
            ;
        }
    }
    assert(seq_quot(seq_times(v, s), s) =~= v);
}

proof fn lemma_dot_upto_symmetric(a: Seq<int>, b: Seq<int>, k: int)
    ensures
        dot_upto(a, b, k) == dot_upto(b, a, k),
    decreases k,
{
    if k > 0 {
        lemma_dot_upto_symmetric(a, b, k - 1);
        assert(a[k - 1] * b[k - 1] == b[k - 1] * a[k - 1]) by (nonlinear_arith);
    }
}

/// The dot product is symmetric.
pub proof fn lemma_dot_symmetric(a: Seq<int>, b: Seq<int>)
    requires
        a.len() == b.len(),
    ensures
        dot(a, b) == dot(b, a),
{
    lemma_dot_upto_symmetric(a, b, a.len() as int);
}

/// The cross product anticommutes, and a vector crossed with itself is zero.
pub proof fn lemma_cross_anticommutes(a: Seq<int>, b: Seq<int>)
    ensures
        cross(a, b) == seq_neg(cross(b, a)),
        cross(a, a) == zeros(3),
{
    assert(a[1] * a[2] == a[2] * a[1]) by (nonlinear_arith);
    assert(a[2] * a[0] == a[0] * a[2]) by (nonlinear_arith);
    assert(a[0] * a[1] == a[1] * a[0]) by (nonlinear_arith);
    assert(a[1] * b[2] == b[2] * a[1] && a[2] * b[1] == b[1] * a[2]) by (nonlinear_arith);
    assert(a[2] * b[0] == b[0] * a[2] && a[0] * b[2] == b[2] * a[0]) by (nonlinear_arith);
    assert(a[0] * b[1] == b[1] * a[0] && a[1] * b[0] == b[0] * a[1]) by (nonlinear_arith);
    assert(cross(a, b) =~= seq_neg(cross(b, a)));
    assert(cross(a, a) =~= zeros(3));
}

/// Transposing twice gives back the matrix.
pub proof fn lemma_transpose_involutive(m: Seq<Seq<int>>, n: nat)
    requires
        is_square(m, n),
    ensures
        transpose(transpose(m)) == m,
{
    assert(transpose(transpose(m)) =~~= m);
}

/// The dot product with the vector that is 1 at `j` and 0 elsewhere picks
/// out entry `j`.
proof fn lemma_dot_unit(a: Seq<int>, e: Seq<int>, j: int, k: int)
    requires
        forall|t: int| 0 <= t < k ==> #[trigger] e[t] == if t == j { 1int } else { 0int },
    ensures
        dot_upto(a, e, k) == if 0 <= j < k { a[j] } else { 0 },
    decreases k,
{
    if k > 0 {
        lemma_dot_unit(a, e, j, k - 1);
        assert(e[k - 1] == if k - 1 == j { 1int } else { 0int });
    }
}

/// The identity is neutral for the matrix product on either side.
pub proof fn lemma_identity_neutral(m: Seq<Seq<int>>, n: nat)
    requires
        is_square(m, n),
    ensures
        mat_mul(m, ident(n)) == m,
        mat_mul(ident(n), m) == m,
{
    let id = ident(n);
    assert forall|i: int, j: int| 0 <= i < n && 0 <= j < n implies #[trigger] dot(
        m[i],
        column(id, j),
    ) == m[i][j] by {
        lemma_dot_unit(m[i], column(id, j), j, n as int);
    }
    assert forall|i: int, j: int| 0 <= i < n && 0 <= j < n implies #[trigger] dot(
        id[i],
        column(m, j),
    ) == m[i][j] by {
        lemma_dot_upto_symmetric(id[i], column(m, j), n as int);
        lemma_dot_unit(column(m, j), id[i], i, n as int);
    }
    assert(mat_mul(m, id) =~~= m);
    assert(mat_mul(id, m) =~~= m);
}

proof fn lemma_quot_square_bound(x: int, l: int)
    requires
        l >= 1,
    ensures
        trunc_div(x, l) * trunc_div(x, l) * (l * l) <= x * x,
        abs(x) >= l ==> trunc_div(x, l) * trunc_div(x, l) >= 1,
{
    let q = abs(x) / l;
    vstd::arithmetic::div_mod::lemma_fundamental_div_mod(abs(x), l);
    vstd::arithmetic::div_mod::lemma_div_pos_is_pos(abs(x), l);
    assert(trunc_div(x, l) * trunc_div(x, l) == q * q) by (nonlinear_arith)
        requires
            trunc_div(x, l) == q || trunc_div(x, l) == -q,
    ;
    assert(x * x == abs(x) * abs(x)) by (nonlinear_arith)
        requires
            abs(x) == x || abs(x) == -x,
    ;
    assert(q * q * (l * l) <= abs(x) * abs(x)) by (nonlinear_arith)
        requires
            q >= 0,
            l >= 1,
            abs(x) == l * q + abs(x) % l,
            abs(x) % l >= 0,
    ;
    if abs(x) >= l {
        vstd::arithmetic::div_mod::lemma_div_is_ordered(l, abs(x), l);
        vstd::arithmetic::div_mod::lemma_div_basics(l);
        assert(q * q >= 1) by (nonlinear_arith)
            requires
                q >= 1,
        ;
    }
}

proof fn lemma_quot_dot_bound(v: Seq<int>, l: int, k: int)
    requires
        l >= 1,
        0 <= k <= v.len(),
    ensures
        dot_upto(seq_quot(v, l), seq_quot(v, l), k) * (l * l) <= dot_upto(v, v, k),
    decreases k,
{
    if k > 0 {
        let q = seq_quot(v, l);
        lemma_quot_dot_bound(v, l, k - 1);
        lemma_quot_square_bound(v[k - 1], l);
        assert(q[k - 1] == trunc_div(v[k - 1], l));
        let p = dot_upto(q, q, k - 1);
        assert((p + q[k - 1] * q[k - 1]) * (l * l) == p * (l * l) + q[k - 1] * q[k - 1] * (l
            * l)) by (nonlinear_arith);
    }
}

proof fn lemma_dot_self_at_least_term(a: Seq<int>, j: int, k: int)
    requires
        0 <= j < k,
    ensures
        dot_upto(a, a, k) >= a[j] * a[j],
    decreases k,
{
    lemma_dot_self_nonneg(a, k - 1);
    assert(a[k - 1] * a[k - 1] >= 0) by (nonlinear_arith);
    if j < k - 1 {
        lemma_dot_self_at_least_term(a, j, k - 1);
    }
}

/// Normalizing a nonzero vector gives length at most 1: on integers the
/// entries of the result are rounded toward zero.
pub proof fn lemma_normalized_length_at_most_one(v: Seq<int>)
    requires
        dot(v, v) > 0,
    ensures
        floor_sqrt(dot(seq_quot(v, floor_sqrt(dot(v, v))), seq_quot(v, floor_sqrt(dot(v, v)))))
            <= 1,
        dot(seq_quot(v, floor_sqrt(dot(v, v))), seq_quot(v, floor_sqrt(dot(v, v)))) < 4,
        floor_sqrt(dot(v, v)) >= 1,
{
    let s = dot(v, v);
    let l = floor_sqrt(s);
    lemma_floor_sqrt(s);
    assert(l >= 1) by (nonlinear_arith)
        requires
            s >= 1,
            l >= 0,
            s < (l + 1) * (l + 1),
    ;
    let q = seq_quot(v, l);
    lemma_quot_dot_bound(v, l, v.len() as int);
    let sq = dot(q, q);
    assert(sq < 4) by (nonlinear_arith)
        requires
            sq * (l * l) <= s,
            s < (l + 1) * (l + 1),
            l >= 1,
    ;
    lemma_dot_self_nonneg(q, q.len() as int);
    lemma_floor_sqrt(sq);
    let r = floor_sqrt(sq);
    assert(r <= 1) by (nonlinear_arith)
        requires
            r >= 0,
            r * r <= sq,
            sq < 4,
    ;
}

/// Normalizing gives length 1 when some entry is at least the length in
/// magnitude (an axis-aligned vector, for one). A vector whose entries are
/// all smaller than its length normalizes to zero on integers.
pub proof fn lemma_normalized_length(v: Seq<int>)
    requires
        dot(v, v) > 0,
        exists|i: int| 0 <= i < v.len() && abs(#[trigger] v[i]) >= floor_sqrt(dot(v, v)),
    ensures
        floor_sqrt(dot(seq_quot(v, floor_sqrt(dot(v, v))), seq_quot(v, floor_sqrt(dot(v, v)))))
            == 1,
{
    let l = floor_sqrt(dot(v, v));
    lemma_normalized_length_at_most_one(v);
    let q = seq_quot(v, l);
    let i = choose|i: int| 0 <= i < v.len() && abs(#[trigger] v[i]) >= l;
    lemma_quot_square_bound(v[i], l);
    lemma_dot_self_at_least_term(q, i, v.len() as int);
    lemma_floor_sqrt_unique(dot(q, q), 1);
}

} // verus!
