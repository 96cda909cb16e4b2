//! The forward model matrix and the dense linear algebra of the solver.
//!
//! A matrix is a row-major flat buffer of IEEE-754 bit patterns. Inner
//! products are standard left-to-right dot products; the transpose is read
//! as a view (by striding), never materialised.

use vstd::prelude::*;
use vstd::arithmetic::mul::{
    lemma_mul_basics, lemma_mul_inequality, lemma_mul_is_distributive_add_other_way,
    lemma_mul_nonnegative,
};
use crate::fp64::{add_bits, mul_bits, f_add, f_mul, B_ZERO};

verus! {

/// A forward model matrix `H` of shape `S x N`, row-major, each element the
/// bit pattern of an IEEE-754 double.
#[derive(Clone)]
pub struct ModelMatrix {
    /// Number of rows: signal samples.
    pub s: usize,
    /// Number of columns: image pixels.
    pub n: usize,
    /// Row-major element bits, of length `s * n`.
    pub data: Vec<u64>,
}

impl ModelMatrix {
    /// A matrix is well formed when its buffer holds exactly one element per
    /// row and column position.
    pub open spec fn wf(self) -> bool {
        self.data@.len() == self.s * self.n
    }

    /// Row `i` as a sequence of element bits.
    pub open spec fn row(self, i: int) -> Seq<u64> {
        self.data@.subrange(i * self.n, i * self.n + self.n)
    }

    /// Column `j` as a sequence of element bits: the `j`-th row of the
    /// transpose view.
    pub open spec fn col(self, j: int) -> Seq<u64> {
        Seq::new(self.s as nat, |i: int| self.data@[i * self.n + j])
    }
}

/// The left-to-right IEEE dot product of two equally long vectors:
/// an accumulator starting at 0.0, adding the products in index order.
pub open spec fn dot_spec(a: Seq<u64>, b: Seq<u64>) -> u64
    decreases a.len(),
{
    if a.len() == 0 {
        B_ZERO
    } else {
        add_bits(
            dot_spec(a.drop_last(), b.drop_last()),
            mul_bits(a[a.len() - 1], b[b.len() - 1]),
        )
    }
}

/// The product `H . x`: one dot product per row.
pub open spec fn matvec_spec(m: ModelMatrix, x: Seq<u64>) -> Seq<u64> {
    Seq::new(m.s as nat, |i: int| dot_spec(m.row(i), x))
}

/// The product `H^T . r`: one dot product per column of `H`.
pub open spec fn tmatvec_spec(m: ModelMatrix, r: Seq<u64>) -> Seq<u64> {
    Seq::new(m.n as nat, |j: int| dot_spec(m.col(j), r))
}

/// Dot product of two equally long vectors of double bits.
pub fn dot(a: &Vec<u64>, b: &Vec<u64>) -> (r: u64)
    requires
        a@.len() == b@.len(),
    ensures
        r == dot_spec(a@, b@),
{
    let mut acc: u64 = B_ZERO;
    let mut i: usize = 0;
    while i < a.len()
        invariant
            a@.len() == b@.len(),
            i <= a@.len(),
            acc == dot_spec(a@.take(i as int), b@.take(i as int)),
        decreases a@.len() - i,
    {
        let term = f_mul(a[i], b[i]);
        acc = f_add(acc, term);
        proof {
            let k = i as int;
            assert(a@.take(k + 1).drop_last() =~= a@.take(k));
            assert(b@.take(k + 1).drop_last() =~= b@.take(k));
            assert(a@.take(k + 1)[k] == a@[k]);
            assert(b@.take(k + 1)[k] == b@[k]);
        }
        i = i + 1;
    }
    proof {
        assert(a@.take(a@.len() as int) =~= a@);
        assert(b@.take(b@.len() as int) =~= b@);
    }
    acc
}

/// A row-major position lies inside the buffer, and a whole row does too.
pub proof fn lemma_index_in_bounds(s: int, n: int, i: int, j: int)
    requires
        0 <= i < s,
        0 <= j < n,
    ensures
        0 <= i * n + j,
        i * n + j < s * n,
        i * n + n <= s * n,
{
    lemma_mul_is_distributive_add_other_way(n, i, 1);
    lemma_mul_inequality(i + 1, s, n);
    lemma_mul_nonnegative(i, n);
}

/// Entry `(i, j)` of the matrix.
fn entry(m: &ModelMatrix, i: usize, j: usize) -> (r: u64)
    requires
        m.wf(),
        i < m.s,
        j < m.n,
    ensures
        r == m.data@[i as int * m.n as int + j as int],
{
    let total = m.data.len();
    proof {
        lemma_index_in_bounds(m.s as int, m.n as int, i as int, j as int);
        assert((i as int * m.n as int + j as int) < (total as int));
    }
    m.data[i * m.n + j]
}

/// The product `H . x`.
pub fn matvec(m: &ModelMatrix, x: &Vec<u64>) -> (r: Vec<u64>)
    requires
        m.wf(),
        x@.len() == m.n,
    ensures
        r@.len() == m.s,
        r@ == matvec_spec(*m, x@),
{
    let mut out: Vec<u64> = Vec::new();
    let mut i: usize = 0;
    while i < m.s
        invariant
            m.wf(),
            x@.len() == m.n,
            i <= m.s,
            out@.len() == i,
            forall|k: int| 0 <= k < i ==> out@[k] == dot_spec(m.row(k), x@),
        decreases m.s - i,
    {
        let mut acc: u64 = B_ZERO;
        let mut j: usize = 0;
        while j < m.n
            invariant
                m.wf(),
                x@.len() == m.n,
                i < m.s,
                j <= m.n,
                acc == dot_spec(m.row(i as int).take(j as int), x@.take(j as int)),
            decreases m.n - j,
        {
            let e = entry(m, i, j);
            proof {
                lemma_index_in_bounds(m.s as int, m.n as int, i as int, j as int);
                let row = m.row(i as int);
                let k = j as int;
                assert(row[k] == m.data@[i as int * m.n as int + k]);
                assert(row.take(k + 1).drop_last() =~= row.take(k));
                assert(x@.take(k + 1).drop_last() =~= x@.take(k));
                assert(row.take(k + 1)[k] == row[k]);
                assert(x@.take(k + 1)[k] == x@[k]);
            }
            let term = f_mul(e, x[j]);
            acc = f_add(acc, term);
            j = j + 1;
        }
        proof {
            if m.n > 0 {
                lemma_index_in_bounds(m.s as int, m.n as int, i as int, 0);
            } else {
                lemma_mul_basics(i as int);
            }
            let row = m.row(i as int);
            assert(row.take(m.n as int) =~= row);
            assert(x@.take(m.n as int) =~= x@);
        }
        out.push(acc);
        i = i + 1;
    }
    proof {
        assert(out@ =~= matvec_spec(*m, x@));
    }
    out
}

/// The product `H^T . r`, reading the transpose as a strided view.
pub fn tmatvec(m: &ModelMatrix, r: &Vec<u64>) -> (out: Vec<u64>)
    requires
        m.wf(),
        r@.len() == m.s,
    ensures
        out@.len() == m.n,
        out@ == tmatvec_spec(*m, r@),
{
    let mut out: Vec<u64> = Vec::new();
    let mut j: usize = 0;
    while j < m.n
        invariant
            m.wf(),
            r@.len() == m.s,
            j <= m.n,
            out@.len() == j,
            forall|k: int| 0 <= k < j ==> out@[k] == dot_spec(m.col(k), r@),
        decreases m.n - j,
    {
        let mut acc: u64 = B_ZERO;
        let mut i: usize = 0;
        while i < m.s
            invariant
                m.wf(),
                r@.len() == m.s,
                j < m.n,
                i <= m.s,
                acc == dot_spec(m.col(j as int).take(i as int), r@.take(i as int)),
            decreases m.s - i,
        {
            let e = entry(m, i, j);
            proof {
                lemma_index_in_bounds(m.s as int, m.n as int, i as int, j as int);
                let colj = m.col(j as int);
                let k = i as int;
                assert(colj[k] == m.data@[k * m.n as int + j as int]);
                assert(colj.take(k + 1).drop_last() =~= colj.take(k));
                assert(r@.take(k + 1).drop_last() =~= r@.take(k));
                assert(colj.take(k + 1)[k] == colj[k]);
                assert(r@.take(k + 1)[k] == r@[k]);
            }
            let term = f_mul(e, r[i]);
            acc = f_add(acc, term);
            i = i + 1;
        }
        proof {
            let colj = m.col(j as int);
            assert(colj.take(m.s as int) =~= colj);
            assert(r@.take(m.s as int) =~= r@);
        }
        out.push(acc);
        j = j + 1;
    }
    proof {
        assert(out@ =~= tmatvec_spec(*m, r@));
    }
    out
}

} // verus!
