//! The `Matrix` container and its two arithmetic operations,
//! multiplication (`dot`) and `transpose`.

use vstd::prelude::*;

verus! {

/// A dense matrix of `i64` elements, stored row-major: `data[i][j]` is the
/// element in row `i`, column `j`. The type does not enforce rectangularity
/// structurally; every operation requires it through [`Matrix::wf`].
#[derive(Clone, Debug)]
pub struct Matrix {
    pub data: Vec<Vec<i64>>,
}

/// The column count of an abstract matrix: the length of its first row
/// (zero for a matrix with no rows).
pub open spec fn cols_of(m: Seq<Seq<int>>) -> int {
    if m.len() == 0 {
        0
    } else {
        m[0].len() as int
    }
}

/// A matrix is rectangular when every row has the same length as the first.
pub open spec fn is_rect(m: Seq<Seq<int>>) -> bool {
    forall|i: int| 0 <= i < m.len() ==> #[trigger] m[i].len() == cols_of(m)
}

/// The sum of the first `k` products `a[i][t] * b[t][j]`: a prefix of the
/// inner product of row `i` of `a` with column `j` of `b`.
pub open spec fn entry_prefix(a: Seq<Seq<int>>, b: Seq<Seq<int>>, i: int, j: int, k: int) -> int
    decreases k,
{
    if k <= 0 {
        0
    } else {
        entry_prefix(a, b, i, j, k - 1) + a[i][k - 1] * b[k - 1][j]
    }
}

/// Element (i, j) of the product `a * b`: the full inner product of row `i`
/// of `a` with column `j` of `b`, summed over all rows of `b`.
pub open spec fn mul_entry(a: Seq<Seq<int>>, b: Seq<Seq<int>>, i: int, j: int) -> int {
    entry_prefix(a, b, i, j, b.len() as int)
}

/// The product of two abstract matrices, as unbounded integers.
pub open spec fn spec_dot(a: Seq<Seq<int>>, b: Seq<Seq<int>>) -> Seq<Seq<int>> {
    Seq::new(a.len(), |i: int| Seq::new(cols_of(b) as nat, |j: int| mul_entry(a, b, i, j)))
}

/// The transpose of an abstract matrix: element (i, j) of the result is
/// element (j, i) of the argument.
pub open spec fn spec_transpose(m: Seq<Seq<int>>) -> Seq<Seq<int>> {
    Seq::new(cols_of(m) as nat, |i: int| Seq::new(m.len(), |j: int| m[j][i]))
}

/// The n-by-n identity matrix: ones on the diagonal, zeroes elsewhere.
pub open spec fn spec_identity(n: int) -> Seq<Seq<int>> {
    Seq::new(n as nat, |i: int| Seq::new(n as nat, |j: int| if i == j { 1int } else { 0int }))
}

/// `x` is representable as an `i64`.
pub open spec fn in_i64(x: int) -> bool {
    i64::MIN <= x <= i64::MAX
}

/// The single product `a[i][k] * b[k][j]`, one term of an inner product.
pub open spec fn prod_term(a: Seq<Seq<int>>, b: Seq<Seq<int>>, i: int, j: int, k: int) -> int {
    a[i][k] * b[k][j]
}

/// Every product and every partial sum that `dot` accumulates stays within
/// the `i64` range, so the multiplication overflows nowhere.
pub open spec fn dot_fits(a: Seq<Seq<int>>, b: Seq<Seq<int>>) -> bool {
    &&& forall|i: int, j: int, k: int|
        0 <= i < a.len() && 0 <= j < cols_of(b) && 0 <= k <= b.len() ==> in_i64(
            #[trigger] entry_prefix(a, b, i, j, k),
        )
    &&& forall|i: int, j: int, k: int|
        0 <= i < a.len() && 0 <= j < cols_of(b) && 0 <= k < b.len() ==> in_i64(
            #[trigger] prod_term(a, b, i, j, k),
        )
}

impl View for Matrix {
    type V = Seq<Seq<int>>;

    /// A matrix is viewed as its grid of elements, widened to `int`.
    open spec fn view(&self) -> Seq<Seq<int>> {
        Seq::new(
            self.data@.len(),
            |i: int| Seq::new(self.data@[i]@.len(), |j: int| self.data@[i]@[j] as int),
        )
    }
}

impl Matrix {
    /// The number of rows.
    pub open spec fn rows(&self) -> int {
        self@.len() as int
    }

    /// The number of columns, read from the first row.
    pub open spec fn cols(&self) -> int {
        cols_of(self@)
    }

    /// Well-formedness: the stored grid is rectangular.
    pub open spec fn wf(&self) -> bool {
        is_rect(self@)
    }

    /// Returns the matrix product of `self` and `other`: element (i, j) of
    /// the result is the sum over k of `self[i][k] * other[k][j]`. The
    /// caller supplies compatible dimensions and grids whose products and
    /// running sums all fit in `i64`, so the result is exact.
    #[verifier::loop_isolation(false)]
    pub fn dot(&self, other: &Matrix) -> (r: Matrix)
        requires
            self.wf(),
            other.wf(),
            0 < self.rows(),
            0 < self.cols(),
            0 < other.rows(),
            0 < other.cols(),
            self.cols() == other.rows(),
            dot_fits(self@, other@),
        ensures
            r.wf(),
            r@ == spec_dot(self@, other@),
            r.rows() == self.rows(),
            r.cols() == other.cols(),
    {
        let rows = self.data.len();
        let cols = other.data[0].len();
        let inner = other.data.len();
        let mut data: Vec<Vec<i64>> = Vec::new();
        let mut i: usize = 0;
        while i < rows
            invariant
                i <= rows,
                data@.len() == i,
                forall|ii: int| 0 <= ii < i ==> #[trigger] data@[ii]@.len() == cols,
                forall|ii: int, j: int|
                    0 <= ii < i && 0 <= j < cols ==> #[trigger] data@[ii]@[j] as int == mul_entry(
                        self@,
                        other@,
                        ii,
                        j,
                    ),
            decreases rows - i,
        {
            let mut tmp: Vec<i64> = Vec::new();
            let mut j: usize = 0;
            while j < cols
                invariant
                    j <= cols,
                    tmp@.len() == j,
                    forall|jj: int|
                        0 <= jj < j ==> #[trigger] tmp@[jj] as int == mul_entry(
                            self@,
                            other@,
                            i as int,
                            jj,
                        ),
                decreases cols - j,
            {
                let mut accum: i64 = 0;
                let mut k: usize = 0;
                while k < inner
                    invariant
                        k <= inner,
                        accum as int == entry_prefix(self@, other@, i as int, j as int, k as int),
                    decreases inner - k,
                {
                    proof {
                        assert(self@[i as int].len() == cols_of(self@));
                        assert(self@[i as int].len() == self.data@[i as int]@.len());
                        assert(other@[k as int].len() == cols_of(other@));
                        assert(other@[k as int].len() == other.data@[k as int]@.len());
                        assert(in_i64(entry_prefix(self@, other@, i as int, j as int, k as int + 1)));
                        assert(in_i64(prod_term(self@, other@, i as int, j as int, k as int)));
                        assert(self@[i as int][k as int] == self.data@[i as int]@[k as int] as int);
                        assert(other@[k as int][j as int] == other.data@[k as int]@[j as int] as int);
                    }
                    let p = self.data[i][k] * other.data[k][j];
                    accum = accum + p;
                    k += 1;
                }
                tmp.push(accum);
                j += 1;
            }
            data.push(tmp);
            i += 1;
        }
        let r = Matrix { data };
        proof {
            assert forall|ii: int, j: int|
                0 <= ii < rows && 0 <= j < cols implies r@[ii][j] == spec_dot(
                self@,
                other@,
            )[ii][j] by {
                assert(r@[ii][j] == data@[ii]@[j] as int);
            }
            assert(r@ =~~= spec_dot(self@, other@));
        }
        r
    }

    /// Returns the transpose: a `cols`-by-`rows` matrix whose element
    /// (i, j) is this matrix's element (j, i).
    #[verifier::loop_isolation(false)]
    pub fn transpose(&self) -> (r: Matrix)
        requires
            self.wf(),
            0 < self.rows(),
            0 < self.cols(),
        ensures
            r.wf(),
            r@ == spec_transpose(self@),
            r.rows() == self.cols(),
            r.cols() == self.rows(),
    {
        let rows = self.data.len();
        let cols = self.data[0].len();
        let mut data: Vec<Vec<i64>> = Vec::new();
        let mut i: usize = 0;
        while i < cols
            invariant
                i <= cols,
                data@.len() == i,
                forall|ii: int| 0 <= ii < i ==> #[trigger] data@[ii]@.len() == rows,
                forall|ii: int, j: int|
                    0 <= ii < i && 0 <= j < rows ==> #[trigger] data@[ii]@[j] == self.data@[j]@[ii],
            decreases cols - i,
        {
            let mut tmp: Vec<i64> = Vec::new();
            let mut j: usize = 0;
            while j < rows
                invariant
                    j <= rows,
                    tmp@.len() == j,
                    forall|jj: int| 0 <= jj < j ==> #[trigger] tmp@[jj] == self.data@[jj]@[i as int],
                decreases rows - j,
            {
                proof {
                    assert(self@[j as int].len() == cols_of(self@));
                    assert(self@[j as int].len() == self.data@[j as int]@.len());
                }
                tmp.push(self.data[j][i]);
                j += 1;
            }
            data.push(tmp);
            i += 1;
        }
        let r = Matrix { data };
        proof {
            assert forall|ii: int, jj: int|
                0 <= ii < cols && 0 <= jj < rows implies r@[ii][jj] == spec_transpose(self@)[ii][jj] by {
                assert(r@[ii][jj] == data@[ii]@[jj] as int);
                assert(self@[jj].len() == cols_of(self@));
                assert(self@[jj][ii] == self.data@[jj]@[ii] as int);
            }
            assert(r@ =~~= spec_transpose(self@));
        }
        r
    }

    /// Builds the n-by-n identity matrix: ones on the diagonal, zeroes
    /// elsewhere. It is the right unit of [`Matrix::dot`].
    #[verifier::loop_isolation(false)]
    pub fn identity(n: usize) -> (r: Matrix)
        requires
            0 < n,
        ensures
            r.wf(),
            r@ == spec_identity(n as int),
            r.rows() == n,
            r.cols() == n,
    {
        let mut data: Vec<Vec<i64>> = Vec::new();
        let mut i: usize = 0;
        while i < n
            invariant
                i <= n,
                data@.len() == i,
                forall|ii: int| 0 <= ii < i ==> #[trigger] data@[ii]@.len() == n,
                forall|ii: int, j: int|
                    0 <= ii < i && 0 <= j < n ==> #[trigger] data@[ii]@[j] == if ii == j {
                        1i64
                    } else {
                        0i64
                    },
            decreases n - i,
        {
            let mut tmp: Vec<i64> = Vec::new();
            let mut j: usize = 0;
            while j < n
                invariant
                    j <= n,
                    tmp@.len() == j,
                    forall|jj: int|
                        0 <= jj < j ==> #[trigger] tmp@[jj] == if i as int == jj {
                            1i64
                        } else {
                            0i64
                        },
                decreases n - j,
            {
                if i == j {
                    tmp.push(1);
                } else {
                    tmp.push(0);
                }
                j += 1;
            }
            data.push(tmp);
            i += 1;
        }
        let r = Matrix { data };
        proof {
            assert(r@ =~~= spec_identity(n as int));
        }
        r
    }
}

impl PartialEq for Matrix {
    /// Two matrices are equal when they hold the same grid of elements.
    #[verifier::loop_isolation(false)]
    fn eq(&self, other: &Matrix) -> (r: bool) {
        if self.data.len() != other.data.len() {
            proof {
                assert(self@.len() != other@.len());
            }
            return false;
        }
        let mut i: usize = 0;
        while i < self.data.len()
            invariant
                i <= self.data.len(),
                self@.len() == other@.len(),
                forall|ii: int| 0 <= ii < i ==> #[trigger] self@[ii] == other@[ii],
            decreases self.data.len() - i,
        {
            if self.data[i].len() != other.data[i].len() {
                proof {
                    assert(self@[i as int].len() != other@[i as int].len());
                }
                return false;
            }
            let mut j: usize = 0;
            while j < self.data[i].len()
                invariant
                    j <= self.data@[i as int]@.len(),
                    self.data@[i as int]@.len() == other.data@[i as int]@.len(),
                    forall|jj: int| 0 <= jj < j ==> #[trigger] self@[i as int][jj] == other@[i as int][jj],
                decreases self.data@[i as int]@.len() - j,
            {
                if self.data[i][j] != other.data[i][j] {
                    proof {
                        assert(self@[i as int][j as int] != other@[i as int][j as int]);
                    }
                    return false;
                }
                j += 1;
            }
            proof {
                assert(self@[i as int] =~= other@[i as int]);
            }
            i += 1;
        }
        proof {
            assert(self@ =~~= other@);
        }
        true
    }
}

impl vstd::std_specs::cmp::PartialEqSpecImpl for Matrix {
    open spec fn obeys_eq_spec() -> bool {
        true
    }

    /// In contracts, `a == b` on matrices means that the views agree.
    open spec fn eq_spec(&self, other: &Matrix) -> bool {
        self@ == other@
    }
}

} // verus!
