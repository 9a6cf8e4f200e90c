//! The `Tensor` type: a rectangular fixed-point matrix with an optional
//! gradient matrix of the same shape, plus the verified matrix kernels the
//! layers and losses are built from.

use vstd::prelude::*;
use crate::fx::{spec_add, spec_mul, fx_add, fx_mul, FX_ONE};
use crate::rng::RngSource;
use crate::{view_of, lemma_view_of_index, NnError};

verus! {

broadcast use lemma_view_of_index;

/// A well-formed matrix is nonempty and rectangular.
pub open spec fn wf_mat(m: Seq<Seq<i64>>) -> bool {
    &&& m.len() > 0
    &&& m[0].len() > 0
    &&& forall|i: int| 0 <= i < m.len() ==> (#[trigger] m[i]).len() == m[0].len()
}

pub open spec fn rows_of(m: Seq<Seq<i64>>) -> int {
    m.len() as int
}

pub open spec fn cols_of(m: Seq<Seq<i64>>) -> int {
    m[0].len() as int
}

/// A 2-D fixed-point matrix together with an optional gradient of the same
/// shape, present only after a backward step has recorded one.
#[derive(Debug)]
pub struct Tensor {
    pub data: Vec<Vec<i64>>,
    pub grad: Option<Vec<Vec<i64>>>,
}

impl Tensor {
    /// The value this tensor carries.
    pub open spec fn view(&self) -> Seq<Seq<i64>> {
        view_of(self.data@)
    }

    /// The recorded gradient, if any.
    pub open spec fn grad_view(&self) -> Option<Seq<Seq<i64>>> {
        match self.grad {
            Some(g) => Some(view_of(g@)),
            None => None,
        }
    }

    pub open spec fn spec_rows(&self) -> int {
        rows_of(self.view())
    }

    pub open spec fn spec_cols(&self) -> int {
        cols_of(self.view())
    }

    /// The data is nonempty and rectangular; a gradient, when present, has
    /// exactly the data's shape.
    pub open spec fn wf(&self) -> bool {
        &&& wf_mat(self.view())
        &&& match self.grad_view() {
            Some(g) => wf_mat(g) && rows_of(g) == self.spec_rows() && cols_of(g)
                == self.spec_cols(),
            None => true,
        }
    }

    /// Construct a tensor from explicit values, with no gradient.
    /// Fails exactly when the given rows do not form a nonempty
    /// rectangular matrix.
    pub fn new(data: Vec<Vec<i64>>) -> (r: Result<Tensor, NnError>)
        ensures
            wf_mat(view_of(data@)) ==> (r matches Ok(t) && t.wf() && t.view() == view_of(data@)
                && t.grad_view() is None),
            !wf_mat(view_of(data@)) ==> (r matches Err(e) && e == NnError::DimensionMismatch),
    {
        if data.len() == 0 || data[0].len() == 0 {
            assert(!wf_mat(view_of(data@)));
            return Err(NnError::DimensionMismatch);
        }
        let cols: usize = data[0].len();
        let mut i: usize = 1;
        while i < data.len()
            invariant
                1 <= i <= data@.len(),
                cols == data@[0]@.len(),
                cols > 0,
                forall|k: int| 0 <= k < i ==> (#[trigger] data@[k])@.len() == cols,
            decreases data@.len() - i,
        {
            if data[i].len() != cols {
                assert(!wf_mat(view_of(data@)));
                return Err(NnError::DimensionMismatch);
            }
            i += 1;
        }
        assert(wf_mat(view_of(data@)));
        Ok(Tensor { data, grad: None })
    }

    /// Report the shape as (rows, columns).
    pub fn shape(&self) -> (r: (usize, usize))
        requires
            self.wf(),
        ensures
            r.0 == self.spec_rows(),
            r.1 == self.spec_cols(),
    {
        (self.data.len(), self.data[0].len())
    }

    /// Construct a zero-filled tensor of the given shape.
    /// Fails exactly when a dimension is zero.
    pub fn zeros(rows: usize, cols: usize) -> (r: Result<Tensor, NnError>)
        ensures
            rows > 0 && cols > 0 ==> (r matches Ok(t) && t.wf() && t.spec_rows() == rows
                && t.spec_cols() == cols && t.grad_view() is None
                && forall|i: int, j: int| 0 <= i < rows && 0 <= j < cols ==> t.view()[i][j] == 0),
            !(rows > 0 && cols > 0) ==> (r matches Err(e) && e == NnError::DimensionMismatch),
    {
        if rows == 0 || cols == 0 {
            return Err(NnError::DimensionMismatch);
        }
        let data = zero_mat(rows, cols);
        Ok(Tensor { data, grad: None })
    }

    /// Construct a tensor of the given shape whose entries are independent
    /// uniform draws in [0, 1), one draw per entry in row-major order.
    /// Fails exactly when a dimension is zero.
    pub fn random(rows: usize, cols: usize, rng: &mut RngSource) -> (r: Result<
        Tensor,
        NnError,
    >)
        ensures
            rows > 0 && cols > 0 ==> (r matches Ok(t) && t.wf() && t.spec_rows() == rows
                && t.spec_cols() == cols && t.grad_view() is None
                && forall|i: int, j: int| 0 <= i < rows && 0 <= j < cols ==> 0 <= #[trigger] t.view()[i][j]
                    < FX_ONE),
            !(rows > 0 && cols > 0) ==> (r matches Err(e) && e == NnError::DimensionMismatch),
    {
        if rows == 0 || cols == 0 {
            return Err(NnError::DimensionMismatch);
        }
        let mut data: Vec<Vec<i64>> = Vec::new();
        let mut i: usize = 0;
        while i < rows
            invariant
                0 <= i <= rows,
                data@.len() == i,
                forall|k: int| 0 <= k < i ==> (#[trigger] data@[k])@.len() == cols,
                forall|k: int, j: int| 0 <= k < i && 0 <= j < cols ==> 0 <= #[trigger] data@[k]@[j]
                    < FX_ONE,
            decreases rows - i,
        {
            let mut row: Vec<i64> = Vec::new();
            let mut j: usize = 0;
            while j < cols
                invariant
                    0 <= j <= cols,
                    row@.len() == j,
                    forall|k: int| 0 <= k < j ==> 0 <= #[trigger] row@[k] < FX_ONE,
                decreases cols - j,
            {
                let d: i64 = rng.next_unit();
                row.push(d);
                j += 1;
            }
            data.push(row);
            i += 1;
        }
        Ok(Tensor { data, grad: None })
    }
}

/// An elementwise copy of a matrix.
pub fn copy_mat(m: &Vec<Vec<i64>>) -> (r: Vec<Vec<i64>>)
    ensures
        view_of(r@) == view_of(m@),
{
    let mut out: Vec<Vec<i64>> = Vec::new();
    let mut i: usize = 0;
    while i < m.len()
        invariant
            0 <= i <= m@.len(),
            out@.len() == i,
            forall|k: int| 0 <= k < i ==> (#[trigger] out@[k])@ == m@[k]@,
        decreases m@.len() - i,
    {
        let mut row: Vec<i64> = Vec::new();
        let mut j: usize = 0;
        while j < m[i].len()
            invariant
                0 <= i < m@.len(),
                0 <= j <= m@[i as int]@.len(),
                row@.len() == j,
                forall|k: int| 0 <= k < j ==> row@[k] == m@[i as int]@[k],
            decreases m@[i as int]@.len() - j,
        {
            row.push(m[i][j]);
            j += 1;
        }
        assert(row@ =~= m@[i as int]@);
        out.push(row);
        i += 1;
    }
    assert(view_of(out@) =~= view_of(m@));
    out
}

impl Tensor {
    /// A deep copy: both the data and any recorded gradient.
    pub fn duplicate(&self) -> (r: Tensor)
        ensures
            r.view() == self.view(),
            r.grad_view() == self.grad_view(),
            self.wf() ==> r.wf(),
    {
        let data = copy_mat(&self.data);
        let grad: Option<Vec<Vec<i64>>> = match &self.grad {
            Some(g) => Some(copy_mat(g)),
            None => None,
        };
        Tensor { data, grad }
    }
}

/// The shape of a saturating matrix product: rows of the left operand,
/// columns of the right.
pub proof fn lemma_mm_spec_shape(a: Seq<Seq<i64>>, b: Seq<Seq<i64>>)
    requires
        wf_mat(a),
        wf_mat(b),
    ensures
        wf_mat(mm_spec(a, b)),
        rows_of(mm_spec(a, b)) == rows_of(a),
        cols_of(mm_spec(a, b)) == cols_of(b),
{
    assert(forall|i: int| 0 <= i < a.len() ==> (#[trigger] mm_spec(a, b)[i]).len() == b[0].len());
}

/// The shape of a transpose.
pub proof fn lemma_transpose_spec_shape(m: Seq<Seq<i64>>)
    requires
        wf_mat(m),
    ensures
        wf_mat(transpose_spec(m)),
        rows_of(transpose_spec(m)) == cols_of(m),
        cols_of(transpose_spec(m)) == rows_of(m),
{
    assert(forall|j: int| 0 <= j < m[0].len() ==> (#[trigger] transpose_spec(m)[j]).len()
        == m.len());
}

/// The shape of an elementwise product.
pub proof fn lemma_hadamard_spec_shape(a: Seq<Seq<i64>>, b: Seq<Seq<i64>>)
    requires
        wf_mat(a),
    ensures
        wf_mat(hadamard_spec(a, b)),
        rows_of(hadamard_spec(a, b)) == rows_of(a),
        cols_of(hadamard_spec(a, b)) == cols_of(a),
{
    assert(forall|i: int| 0 <= i < a.len() ==> (#[trigger] hadamard_spec(a, b)[i]).len()
        == a[0].len());
}

/// A zero-filled matrix of the given positive shape.
pub fn zero_mat(rows: usize, cols: usize) -> (r: Vec<Vec<i64>>)
    requires
        rows > 0,
        cols > 0,
    ensures
        wf_mat(view_of(r@)),
        rows_of(view_of(r@)) == rows,
        cols_of(view_of(r@)) == cols,
        forall|i: int, j: int| 0 <= i < rows && 0 <= j < cols ==> view_of(r@)[i][j] == 0,
{
    let mut data: Vec<Vec<i64>> = Vec::new();
    let mut i: usize = 0;
    while i < rows
        invariant
            0 <= i <= rows,
            data@.len() == i,
            forall|k: int| 0 <= k < i ==> (#[trigger] data@[k])@.len() == cols,
            forall|k: int, j: int| 0 <= k < i && 0 <= j < cols ==> #[trigger] data@[k]@[j] == 0,
        decreases rows - i,
    {
        let mut row: Vec<i64> = Vec::new();
        let mut j: usize = 0;
        while j < cols
            invariant
                0 <= j <= cols,
                row@.len() == j,
                forall|k: int| 0 <= k < j ==> row@[k] == 0,
            decreases cols - j,
        {
            row.push(0i64);
            j += 1;
        }
        data.push(row);
        i += 1;
    }
    data
}

/// Saturating dot-product accumulation of the first `k` terms of row `i` of
/// `a` against column `j` of `b`, in index order.
pub open spec fn mm_acc(a: Seq<Seq<i64>>, b: Seq<Seq<i64>>, i: int, j: int, k: nat) -> i64
    decreases k,
{
    if k == 0 {
        0
    } else {
        spec_add(mm_acc(a, b, i, j, (k - 1) as nat), spec_mul(a[i][k - 1], b[k - 1][j]))
    }
}

/// Matrix product of `a` (r×n) and `b` (n×c) under saturating fixed-point
/// arithmetic.
pub open spec fn mm_spec(a: Seq<Seq<i64>>, b: Seq<Seq<i64>>) -> Seq<Seq<i64>> {
    Seq::new(a.len(), |i: int| Seq::new(b[0].len(), |j: int| mm_acc(a, b, i, j, a[0].len())))
}

/// Verified matrix multiplication.
pub fn matmul(a: &Vec<Vec<i64>>, b: &Vec<Vec<i64>>) -> (r: Vec<Vec<i64>>)
    requires
        wf_mat(view_of(a@)),
        wf_mat(view_of(b@)),
        cols_of(view_of(a@)) == rows_of(view_of(b@)),
    ensures
        view_of(r@) == mm_spec(view_of(a@), view_of(b@)),
        wf_mat(view_of(r@)),
        rows_of(view_of(r@)) == rows_of(view_of(a@)),
        cols_of(view_of(r@)) == cols_of(view_of(b@)),
{
    let ghost av = view_of(a@);
    let ghost bv = view_of(b@);
    let rows: usize = a.len();
    let inner: usize = a[0].len();
    let cols: usize = b[0].len();
    let mut out: Vec<Vec<i64>> = Vec::new();
    let mut i: usize = 0;
    while i < rows
        invariant
            0 <= i <= rows,
            out@.len() == i,
            rows == av.len(),
            inner == cols_of(av),
            cols == cols_of(bv),
            wf_mat(av),
            wf_mat(bv),
            cols_of(av) == rows_of(bv),
            av == view_of(a@),
            bv == view_of(b@),
            forall|k: int| 0 <= k < i ==> (#[trigger] out@[k])@ == mm_spec(av, bv)[k],
        decreases rows - i,
    {
        let mut row: Vec<i64> = Vec::new();
        let mut j: usize = 0;
        while j < cols
            invariant
                0 <= j <= cols,
                0 <= i < rows,
                row@.len() == j,
                rows == av.len(),
                inner == cols_of(av),
                cols == cols_of(bv),
                wf_mat(av),
                wf_mat(bv),
                cols_of(av) == rows_of(bv),
                av == view_of(a@),
                bv == view_of(b@),
                forall|k: int| 0 <= k < j ==> row@[k] == mm_acc(av, bv, i as int, k, inner as nat),
            decreases cols - j,
        {
            let mut acc: i64 = 0;
            let mut k: usize = 0;
            while k < inner
                invariant
                    0 <= k <= inner,
                    0 <= i < rows,
                    0 <= j < cols,
                    rows == av.len(),
                    inner == cols_of(av),
                    cols == cols_of(bv),
                    wf_mat(av),
                    wf_mat(bv),
                    cols_of(av) == rows_of(bv),
                    av == view_of(a@),
                    bv == view_of(b@),
                    acc == mm_acc(av, bv, i as int, j as int, k as nat),
                decreases inner - k,
            {
                let t: i64 = fx_mul(a[i][k], b[k][j]);
                acc = fx_add(acc, t);
                k += 1;
            }
            row.push(acc);
            j += 1;
        }
        assert(row@ =~= mm_spec(av, bv)[i as int]);
        out.push(row);
        i += 1;
    }
    assert(view_of(out@) =~= mm_spec(av, bv));
    out
}

/// Transpose of a well-formed matrix.
pub open spec fn transpose_spec(m: Seq<Seq<i64>>) -> Seq<Seq<i64>> {
    Seq::new(m[0].len(), |j: int| Seq::new(m.len(), |i: int| m[i][j]))
}

pub fn transpose(m: &Vec<Vec<i64>>) -> (r: Vec<Vec<i64>>)
    requires
        wf_mat(view_of(m@)),
    ensures
        view_of(r@) == transpose_spec(view_of(m@)),
        wf_mat(view_of(r@)),
        rows_of(view_of(r@)) == cols_of(view_of(m@)),
        cols_of(view_of(r@)) == rows_of(view_of(m@)),
{
    let ghost mv = view_of(m@);
    let rows: usize = m.len();
    let cols: usize = m[0].len();
    let mut out: Vec<Vec<i64>> = Vec::new();
    let mut j: usize = 0;
    while j < cols
        invariant
            0 <= j <= cols,
            out@.len() == j,
            rows == mv.len(),
            cols == cols_of(mv),
            wf_mat(mv),
            mv == view_of(m@),
            forall|k: int| 0 <= k < j ==> (#[trigger] out@[k])@ == transpose_spec(mv)[k],
        decreases cols - j,
    {
        let mut row: Vec<i64> = Vec::new();
        let mut i: usize = 0;
        while i < rows
            invariant
                0 <= i <= rows,
                0 <= j < cols,
                row@.len() == i,
                rows == mv.len(),
                cols == cols_of(mv),
                wf_mat(mv),
                mv == view_of(m@),
                forall|k: int| 0 <= k < i ==> row@[k] == mv[k][j as int],
        decreases rows - i,
        {
            row.push(m[i][j]);
            i += 1;
        }
        assert(row@ =~= transpose_spec(mv)[j as int]);
        out.push(row);
        j += 1;
    }
    assert(view_of(out@) =~= transpose_spec(mv));
    out
}

/// Elementwise (Hadamard) product under saturating fixed-point arithmetic.
pub open spec fn hadamard_spec(a: Seq<Seq<i64>>, b: Seq<Seq<i64>>) -> Seq<Seq<i64>> {
    Seq::new(a.len(), |i: int| Seq::new(a[0].len(), |j: int| spec_mul(a[i][j], b[i][j])))
}

pub fn hadamard(a: &Vec<Vec<i64>>, b: &Vec<Vec<i64>>) -> (r: Vec<Vec<i64>>)
    requires
        wf_mat(view_of(a@)),
        wf_mat(view_of(b@)),
        rows_of(view_of(a@)) == rows_of(view_of(b@)),
        cols_of(view_of(a@)) == cols_of(view_of(b@)),
    ensures
        view_of(r@) == hadamard_spec(view_of(a@), view_of(b@)),
        wf_mat(view_of(r@)),
        rows_of(view_of(r@)) == rows_of(view_of(a@)),
        cols_of(view_of(r@)) == cols_of(view_of(a@)),
{
    let ghost av = view_of(a@);
    let ghost bv = view_of(b@);
    let rows: usize = a.len();
    let cols: usize = a[0].len();
    let mut out: Vec<Vec<i64>> = Vec::new();
    let mut i: usize = 0;
    while i < rows
        invariant
            0 <= i <= rows,
            out@.len() == i,
            rows == av.len(),
            cols == cols_of(av),
            wf_mat(av),
            wf_mat(bv),
            rows_of(av) == rows_of(bv),
            cols_of(av) == cols_of(bv),
            av == view_of(a@),
            bv == view_of(b@),
            forall|k: int| 0 <= k < i ==> (#[trigger] out@[k])@ == hadamard_spec(av, bv)[k],
        decreases rows - i,
    {
        let mut row: Vec<i64> = Vec::new();
        let mut j: usize = 0;
        while j < cols
            invariant
                0 <= j <= cols,
                0 <= i < rows,
                row@.len() == j,
                rows == av.len(),
                cols == cols_of(av),
                wf_mat(av),
                wf_mat(bv),
                rows_of(av) == rows_of(bv),
                cols_of(av) == cols_of(bv),
                av == view_of(a@),
                bv == view_of(b@),
                forall|k: int| 0 <= k < j ==> row@[k] == spec_mul(av[i as int][k], bv[i as int][k]),
            decreases cols - j,
        {
            let t: i64 = fx_mul(a[i][j], b[i][j]);
            row.push(t);
            j += 1;
        }
        assert(row@ =~= hadamard_spec(av, bv)[i as int]);
        out.push(row);
        i += 1;
    }
    assert(view_of(out@) =~= hadamard_spec(av, bv));
    out
}

} // verus!
