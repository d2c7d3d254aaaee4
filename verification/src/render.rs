//! Human-readable rendering of a matrix: each row's elements joined by a
//! comma, rows separated by a newline and a seven-space indent, the whole
//! wrapped as `Matrix(...)` with no trailing separator after the last row.

use vstd::prelude::*;
use vstd::string::StringExecFns;

use crate::mat::Matrix;

verus! {

/// The decimal digit character for a value between 0 and 9.
pub open spec fn spec_digit(d: int) -> char {
    (48 + d) as char
}

/// The decimal rendering of a non-negative integer, most significant
/// digit first, with no leading zeroes.
pub open spec fn spec_nat_decimal(n: int) -> Seq<char>
    decreases n,
{
    if n <= 9 {
        seq![spec_digit(n)]
    } else {
        spec_nat_decimal(n / 10).push(spec_digit(n % 10))
    }
}

/// The decimal rendering of an integer: a leading `-` for negative values.
pub open spec fn spec_decimal(n: int) -> Seq<char> {
    if n < 0 {
        seq!['-'] + spec_nat_decimal(-n)
    } else {
        spec_nat_decimal(n)
    }
}

/// One row's rendering: the elements' decimal forms joined by a comma,
/// with no space and no trailing comma.
pub open spec fn render_row(row: Seq<int>) -> Seq<char>
    decreases row.len(),
{
    if row.len() == 0 {
        Seq::empty()
    } else if row.len() == 1 {
        spec_decimal(row[0])
    } else {
        render_row(row.drop_last()) + seq![','] + spec_decimal(row.last())
    }
}

/// The separator between rendered rows: a newline followed by seven
/// spaces, aligning continuation rows under the `Matrix(` label.
pub open spec fn render_sep() -> Seq<char> {
    seq!['\n', ' ', ' ', ' ', ' ', ' ', ' ', ' ']
}

/// The opening label of the rendering.
pub open spec fn render_header() -> Seq<char> {
    seq!['M', 'a', 't', 'r', 'i', 'x', '(']
}

/// All rows' renderings joined by the separator, with no separator after
/// the last row.
pub open spec fn render_body(m: Seq<Seq<int>>) -> Seq<char>
    decreases m.len(),
{
    if m.len() == 0 {
        Seq::empty()
    } else if m.len() == 1 {
        render_row(m[0])
    } else {
        render_body(m.drop_last()) + render_sep() + render_row(m.last())
    }
}

/// The full rendering of a matrix: the joined rows wrapped in `Matrix(...)`.
pub open spec fn spec_render(m: Seq<Seq<int>>) -> Seq<char> {
    render_header() + render_body(m) + seq![')']
}

/// Relies on `i64`'s `Display` implementation, through `format!`: it
/// writes the value in decimal, most significant digit first, with no
/// leading zeroes and a leading `-` for negative values.
#[verifier::external_body]
fn i64_to_string(x: i64) -> (r: String)
    ensures
        r@ == spec_decimal(x as int),
{
    format!("{}", x)
}

impl Matrix {
    /// Renders the matrix in its human-readable form, described by
    /// [`spec_render`]: rows comma-joined, separated by a newline and a
    /// seven-space indent, wrapped in `Matrix(...)`.
    #[verifier::loop_isolation(false)]
    pub fn to_display_string(&self) -> (r: String)
        requires
            0 < self.rows(),
        ensures
            r@ == spec_render(self@),
    {
        let mut out = String::new();
        out.append("Matrix(");
        proof {
            reveal_strlit("Matrix(");
            assert(out@ =~= render_header() + render_body(self@.subrange(0, 0)));
        }
        let mut i: usize = 0;
        while i < self.data.len()
            invariant
                i <= self.data@.len(),
                out@ == render_header() + render_body(self@.subrange(0, i as int)),
            decreases self.data@.len() - i,
        {
            if i > 0 {
                out.append("\n       ");
                proof {
                    reveal_strlit("\n       ");
                    assert(out@ =~= render_header() + render_body(self@.subrange(0, i as int))
                        + render_sep());
                }
            }
            let ghost prefix: Seq<char> = out@;
            let ghost rowv: Seq<int> = self@[i as int];
            proof {
                assert(rowv.len() == self.data@[i as int]@.len());
                assert(rowv.subrange(0, 0) =~= Seq::<int>::empty());
                assert(out@ =~= prefix + render_row(rowv.subrange(0, 0)));
            }
            let mut j: usize = 0;
            while j < self.data[i].len()
                invariant
                    j <= rowv.len(),
                    out@ == prefix + render_row(rowv.subrange(0, j as int)),
                decreases rowv.len() - j,
            {
                if j > 0 {
                    out.append(",");
                }
                let s = i64_to_string(self.data[i][j]);
                out.append(s.as_str());
                proof {
                    reveal_strlit(",");
                    assert(self.data@[i as int]@[j as int] as int == rowv[j as int]);
                    let sub1 = rowv.subrange(0, j as int + 1);
                    assert(sub1.drop_last() =~= rowv.subrange(0, j as int));
                    assert(sub1.last() == rowv[j as int]);
                    if j == 0 {
                        assert(out@ =~= prefix + render_row(sub1));
                    } else {
                        assert(render_row(sub1) == render_row(rowv.subrange(0, j as int))
                            + seq![','] + spec_decimal(rowv[j as int]));
                        assert(out@ =~= prefix + render_row(sub1));
                    }
                }
                j += 1;
            }
            proof {
                assert(rowv.subrange(0, rowv.len() as int) =~= rowv);
                let subi = self@.subrange(0, i as int + 1);
                assert(subi.drop_last() =~= self@.subrange(0, i as int));
                assert(subi.last() == self@[i as int]);
                if i == 0 {
                    assert(render_body(subi) == render_row(rowv));
                    assert(out@ =~= render_header() + render_body(subi));
                } else {
                    assert(render_body(subi) == render_body(self@.subrange(0, i as int))
                        + render_sep() + render_row(rowv));
                    assert(out@ =~= render_header() + render_body(subi));
                }
            }
            i += 1;
        }
        out.append(")");
        proof {
            reveal_strlit(")");
            assert(self@.subrange(0, self@.len() as int) =~= self@);
            assert(out@ =~= spec_render(self@));
        }
        out
    }
}

} // verus!
