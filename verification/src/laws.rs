//! The algebraic laws of the matrix operations: multiplication is
//! associative, the identity matrix is its right unit, and transposition
//! is an involution. Each law is stated over the abstract views that the
//! operations' contracts speak of.

use vstd::prelude::*;

use crate::mat::cols_of;
use crate::mat::entry_prefix;
use crate::mat::is_rect;
use crate::mat::mul_entry;
use crate::mat::spec_dot;
use crate::mat::spec_identity;
use crate::mat::spec_transpose;
use vstd::arithmetic::mul::lemma_mul_is_associative;
use vstd::arithmetic::mul::lemma_mul_is_distributive_add;
use vstd::arithmetic::mul::lemma_mul_is_distributive_add_other_way;

verus! {

/// Transposing twice returns the original matrix, for every non-empty
/// rectangular matrix.
pub proof fn lemma_transpose_involution(m: Seq<Seq<int>>)
    requires
        is_rect(m),
        0 < m.len(),
        0 < cols_of(m),
    ensures
        spec_transpose(spec_transpose(m)) == m,
{
    let t = spec_transpose(m);
    assert(cols_of(t) == m.len());
    assert forall|i: int| 0 <= i < m.len() implies #[trigger] m[i].len() == cols_of(m) by {}
    assert(spec_transpose(t) =~~= m);
}

/// A prefix of the inner product of row `i` of `a` against column `j` of
/// the identity matrix: zero until the prefix reaches the diagonal term,
/// `a[i][j]` from then on.
proof fn lemma_identity_prefix(a: Seq<Seq<int>>, n: int, i: int, j: int, k: int)
    requires
        0 <= j < n,
        0 <= k <= n,
    ensures
        entry_prefix(a, spec_identity(n), i, j, k) == if j < k {
            a[i][j]
        } else {
            0
        },
    decreases k,
{
    if 0 < k {
        lemma_identity_prefix(a, n, i, j, k - 1);
        let id = spec_identity(n);
        assert(id[k - 1][j] == if k - 1 == j {
            1int
        } else {
            0int
        });
    }
}

/// Multiplying by the appropriately-sized identity matrix on the right
/// leaves every non-empty rectangular matrix unchanged.
pub proof fn lemma_dot_identity(m: Seq<Seq<int>>)
    requires
        is_rect(m),
        0 < m.len(),
        0 < cols_of(m),
    ensures
        spec_dot(m, spec_identity(cols_of(m))) == m,
{
    let n = cols_of(m);
    let id = spec_identity(n);
    assert(id.len() == n);
    assert(cols_of(id) == n);
    assert forall|i: int, j: int|
        0 <= i < m.len() && 0 <= j < n implies mul_entry(m, id, i, j) == m[i][j] by {
        lemma_identity_prefix(m, n, i, j, n);
    }
    assert forall|i: int| 0 <= i < m.len() implies #[trigger] m[i].len() == n by {}
    assert(spec_dot(m, id) =~~= m);
}

/// Sum over l < ll of `a[i][l] * b[l][k] * c[k][j]`: the terms of the
/// triple product that share the middle index `k`.
spec fn tri_row(
    a: Seq<Seq<int>>,
    b: Seq<Seq<int>>,
    c: Seq<Seq<int>>,
    i: int,
    j: int,
    k: int,
    ll: int,
) -> int
    decreases ll,
{
    if ll <= 0 {
        0
    } else {
        tri_row(a, b, c, i, j, k, ll - 1) + a[i][ll - 1] * b[ll - 1][k] * c[k][j]
    }
}

/// Sum of `tri_row` over k < kk: the triple sum grouped by the middle
/// index first, as `(a * b) * c` computes it.
spec fn tri_by_k(
    a: Seq<Seq<int>>,
    b: Seq<Seq<int>>,
    c: Seq<Seq<int>>,
    i: int,
    j: int,
    kk: int,
    n: int,
) -> int
    decreases kk,
{
    if kk <= 0 {
        0
    } else {
        tri_by_k(a, b, c, i, j, kk - 1, n) + tri_row(a, b, c, i, j, kk - 1, n)
    }
}

/// Sum over k < kk of `a[i][l] * b[l][k] * c[k][j]`: the terms of the
/// triple product that share the left index `l`.
spec fn tri_col(
    a: Seq<Seq<int>>,
    b: Seq<Seq<int>>,
    c: Seq<Seq<int>>,
    i: int,
    j: int,
    l: int,
    kk: int,
) -> int
    decreases kk,
{
    if kk <= 0 {
        0
    } else {
        tri_col(a, b, c, i, j, l, kk - 1) + a[i][l] * b[l][kk - 1] * c[kk - 1][j]
    }
}

/// Sum of `tri_col` over l < ll: the triple sum grouped by the left
/// index first, as `a * (b * c)` computes it.
spec fn tri_by_l(
    a: Seq<Seq<int>>,
    b: Seq<Seq<int>>,
    c: Seq<Seq<int>>,
    i: int,
    j: int,
    ll: int,
    p: int,
) -> int
    decreases ll,
{
    if ll <= 0 {
        0
    } else {
        tri_by_l(a, b, c, i, j, ll - 1, p) + tri_col(a, b, c, i, j, ll - 1, p)
    }
}

/// Scaling a prefix of the inner product of `a` and `b` by `c[k][j]`
/// gives the matching prefix of the triple sum.
proof fn lemma_row_scale(
    a: Seq<Seq<int>>,
    b: Seq<Seq<int>>,
    c: Seq<Seq<int>>,
    i: int,
    j: int,
    k: int,
    ll: int,
)
    ensures
        entry_prefix(a, b, i, k, ll) * c[k][j] == tri_row(a, b, c, i, j, k, ll),
    decreases ll,
{
    if ll <= 0 {
        assert(0 * c[k][j] == 0);
    } else {
        lemma_row_scale(a, b, c, i, j, k, ll - 1);
        lemma_mul_is_distributive_add_other_way(
            c[k][j],
            entry_prefix(a, b, i, k, ll - 1),
            a[i][ll - 1] * b[ll - 1][k],
        );
    }
}

/// Scaling a prefix of the inner product of `b` and `c` by `a[i][l]`
/// gives the matching prefix of the triple sum.
proof fn lemma_col_scale(
    a: Seq<Seq<int>>,
    b: Seq<Seq<int>>,
    c: Seq<Seq<int>>,
    i: int,
    j: int,
    l: int,
    kk: int,
)
    ensures
        a[i][l] * entry_prefix(b, c, l, j, kk) == tri_col(a, b, c, i, j, l, kk),
    decreases kk,
{
    if kk <= 0 {
        assert(a[i][l] * 0 == 0);
    } else {
        lemma_col_scale(a, b, c, i, j, l, kk - 1);
        lemma_mul_is_distributive_add(
            a[i][l],
            entry_prefix(b, c, l, j, kk - 1),
            b[l][kk - 1] * c[kk - 1][j],
        );
        lemma_mul_is_associative(a[i][l], b[l][kk - 1], c[kk - 1][j]);
    }
}

/// A prefix of the inner product of `a * b` against `c` is the triple
/// sum grouped by the middle index.
proof fn lemma_entry_lhs(
    a: Seq<Seq<int>>,
    b: Seq<Seq<int>>,
    c: Seq<Seq<int>>,
    i: int,
    j: int,
    kk: int,
)
    requires
        0 <= i < a.len(),
        kk <= cols_of(b),
    ensures
        entry_prefix(spec_dot(a, b), c, i, j, kk) == tri_by_k(
            a,
            b,
            c,
            i,
            j,
            kk,
            b.len() as int,
        ),
    decreases kk,
{
    if 0 < kk {
        lemma_entry_lhs(a, b, c, i, j, kk - 1);
        let ab = spec_dot(a, b);
        assert(ab[i][kk - 1] == mul_entry(a, b, i, kk - 1));
        lemma_row_scale(a, b, c, i, j, kk - 1, b.len() as int);
    }
}

/// A prefix of the inner product of `a` against `b * c` is the triple
/// sum grouped by the left index.
proof fn lemma_entry_rhs(
    a: Seq<Seq<int>>,
    b: Seq<Seq<int>>,
    c: Seq<Seq<int>>,
    i: int,
    j: int,
    ll: int,
)
    requires
        ll <= b.len(),
        0 <= j < cols_of(c),
        0 < b.len(),
    ensures
        entry_prefix(a, spec_dot(b, c), i, j, ll) == tri_by_l(
            a,
            b,
            c,
            i,
            j,
            ll,
            c.len() as int,
        ),
    decreases ll,
{
    if 0 < ll {
        lemma_entry_rhs(a, b, c, i, j, ll - 1);
        let bc = spec_dot(b, c);
        assert(bc[ll - 1][j] == mul_entry(b, c, ll - 1, j));
        lemma_col_scale(a, b, c, i, j, ll - 1, c.len() as int);
    }
}

/// The column-grouped triple sum over no columns is zero.
proof fn lemma_tri_by_l_zero(
    a: Seq<Seq<int>>,
    b: Seq<Seq<int>>,
    c: Seq<Seq<int>>,
    i: int,
    j: int,
    ll: int,
)
    ensures
        tri_by_l(a, b, c, i, j, ll, 0) == 0,
    decreases ll,
{
    if 0 < ll {
        lemma_tri_by_l_zero(a, b, c, i, j, ll - 1);
    }
}

/// Extending the column-grouped triple sum by one middle index adds the
/// row of terms for that index.
proof fn lemma_tri_by_l_step(
    a: Seq<Seq<int>>,
    b: Seq<Seq<int>>,
    c: Seq<Seq<int>>,
    i: int,
    j: int,
    ll: int,
    kk: int,
)
    requires
        0 < kk,
    ensures
        tri_by_l(a, b, c, i, j, ll, kk) == tri_by_l(a, b, c, i, j, ll, kk - 1) + tri_row(
            a,
            b,
            c,
            i,
            j,
            kk - 1,
            ll,
        ),
    decreases ll,
{
    if 0 < ll {
        lemma_tri_by_l_step(a, b, c, i, j, ll - 1, kk);
    }
}

/// The two groupings of the triple sum agree: summing rows first equals
/// summing columns first.
proof fn lemma_tri_swap(
    a: Seq<Seq<int>>,
    b: Seq<Seq<int>>,
    c: Seq<Seq<int>>,
    i: int,
    j: int,
    kk: int,
    n: int,
)
    requires
        0 <= kk,
    ensures
        tri_by_k(a, b, c, i, j, kk, n) == tri_by_l(a, b, c, i, j, n, kk),
    decreases kk,
{
    if kk <= 0 {
        lemma_tri_by_l_zero(a, b, c, i, j, n);
    } else {
        lemma_tri_swap(a, b, c, i, j, kk - 1, n);
        lemma_tri_by_l_step(a, b, c, i, j, n, kk);
    }
}

/// Matrix multiplication is associative: `(a * b) * c == a * (b * c)`
/// for all rectangular matrices of compatible dimensions.
pub proof fn lemma_dot_assoc(a: Seq<Seq<int>>, b: Seq<Seq<int>>, c: Seq<Seq<int>>)
    requires
        is_rect(a),
        is_rect(b),
        is_rect(c),
        0 < a.len(),
        0 < b.len(),
        0 < c.len(),
        cols_of(a) == b.len(),
        cols_of(b) == c.len(),
    ensures
        spec_dot(spec_dot(a, b), c) == spec_dot(a, spec_dot(b, c)),
{
    let ab = spec_dot(a, b);
    let bc = spec_dot(b, c);
    let n = b.len() as int;
    let p = c.len() as int;
    assert(cols_of(ab) == cols_of(b));
    assert(cols_of(bc) == cols_of(c));
    assert forall|i: int, j: int|
        0 <= i < a.len() && 0 <= j < cols_of(c) implies mul_entry(ab, c, i, j) == mul_entry(
        a,
        bc,
        i,
        j,
    ) by {
        lemma_entry_lhs(a, b, c, i, j, p);
        lemma_tri_swap(a, b, c, i, j, p, n);
        lemma_entry_rhs(a, b, c, i, j, n);
    }
    assert(spec_dot(ab, c) =~~= spec_dot(a, bc));
}

} // verus!
