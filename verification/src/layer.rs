//! The transformation stages: a linear (dense) transform, the ReLU,
//! sigmoid, tanh and softmax activations, stochastic dropout, and the
//! closed `Layer` variant set that dispatches over them.

use vstd::prelude::*;
use vstd::arithmetic::div_mod::{
    lemma_div_is_ordered, lemma_div_multiples_vanish, lemma_div_pos_is_pos,
    lemma_fundamental_div_mod, lemma_mod_bound,
};
use vstd::arithmetic::mul::{lemma_mul_inequality, lemma_mul_is_distributive_add};
use crate::fx::{
    spec_add, spec_sub, spec_mul, spec_div, spec_neg, spec_exp, fx_add, fx_sub, fx_mul, fx_div,
    fx_neg, fx_exp, lemma_mul_one, lemma_one_div_one, lemma_spec_exp_nonneg, FX_ONE,
};
use crate::rng::RngSource;
use crate::tensor::{
    Tensor, wf_mat, rows_of, cols_of, mm_spec, mm_acc, transpose_spec, hadamard_spec, matmul,
    transpose, hadamard, zero_mat,
};
use crate::{view_of, lemma_view_of_index, NnError};

verus! {

broadcast use lemma_view_of_index;

// ---- Shared elementwise helpers ----

/// Broadcast addition of a 1-row bias to every row.
pub open spec fn add_bias_spec(z: Seq<Seq<i64>>, b: Seq<Seq<i64>>) -> Seq<Seq<i64>> {
    Seq::new(z.len(), |i: int| Seq::new(z[0].len(), |j: int| spec_add(z[i][j], b[0][j])))
}

fn add_bias(z: &Vec<Vec<i64>>, b: &Vec<Vec<i64>>) -> (r: Vec<Vec<i64>>)
    requires
        wf_mat(view_of(z@)),
        wf_mat(view_of(b@)),
        rows_of(view_of(b@)) == 1,
        cols_of(view_of(b@)) == cols_of(view_of(z@)),
    ensures
        view_of(r@) == add_bias_spec(view_of(z@), view_of(b@)),
        wf_mat(view_of(r@)),
        rows_of(view_of(r@)) == rows_of(view_of(z@)),
        cols_of(view_of(r@)) == cols_of(view_of(z@)),
{
    let ghost zv = view_of(z@);
    let ghost bv = view_of(b@);
    let rows: usize = z.len();
    let cols: usize = z[0].len();
    let mut out: Vec<Vec<i64>> = Vec::new();
    let mut i: usize = 0;
    while i < rows
        invariant
            0 <= i <= rows,
            out@.len() == i,
            rows == zv.len(),
            cols == cols_of(zv),
            wf_mat(zv),
            wf_mat(bv),
            rows_of(bv) == 1,
            cols_of(bv) == cols_of(zv),
            zv == view_of(z@),
            bv == view_of(b@),
            forall|k: int| 0 <= k < i ==> (#[trigger] out@[k])@ == add_bias_spec(zv, bv)[k],
        decreases rows - i,
    {
        let mut row: Vec<i64> = Vec::new();
        let mut j: usize = 0;
        while j < cols
            invariant
                0 <= j <= cols,
                0 <= i < rows,
                row@.len() == j,
                rows == zv.len(),
                cols == cols_of(zv),
                wf_mat(zv),
                wf_mat(bv),
                rows_of(bv) == 1,
                cols_of(bv) == cols_of(zv),
                zv == view_of(z@),
                bv == view_of(b@),
                forall|k: int| 0 <= k < j ==> row@[k] == spec_add(zv[i as int][k], bv[0][k]),
            decreases cols - j,
        {
            let t: i64 = fx_add(z[i][j], b[0][j]);
            row.push(t);
            j += 1;
        }
        assert(row@ =~= add_bias_spec(zv, bv)[i as int]);
        out.push(row);
        i += 1;
    }
    assert(view_of(out@) =~= add_bias_spec(zv, bv));
    out
}

/// Saturating sum of the first `k` entries of column `j`.
pub open spec fn col_sum_acc(g: Seq<Seq<i64>>, j: int, k: nat) -> i64
    decreases k,
{
    if k == 0 {
        0
    } else {
        spec_add(col_sum_acc(g, j, (k - 1) as nat), g[k - 1][j])
    }
}

/// The 1-row matrix of column sums of `g`.
pub open spec fn col_sums_spec(g: Seq<Seq<i64>>) -> Seq<Seq<i64>> {
    Seq::new(1, |r: int| Seq::new(g[0].len(), |j: int| col_sum_acc(g, j, g.len())))
}

fn col_sums(g: &Vec<Vec<i64>>) -> (r: Vec<Vec<i64>>)
    requires
        wf_mat(view_of(g@)),
    ensures
        view_of(r@) == col_sums_spec(view_of(g@)),
        wf_mat(view_of(r@)),
        rows_of(view_of(r@)) == 1,
        cols_of(view_of(r@)) == cols_of(view_of(g@)),
{
    let ghost gv = view_of(g@);
    let rows: usize = g.len();
    let cols: usize = g[0].len();
    let mut row: Vec<i64> = Vec::new();
    let mut j: usize = 0;
    while j < cols
        invariant
            0 <= j <= cols,
            row@.len() == j,
            rows == gv.len(),
            cols == cols_of(gv),
            wf_mat(gv),
            gv == view_of(g@),
            forall|k: int| 0 <= k < j ==> row@[k] == col_sum_acc(gv, k, gv.len()),
        decreases cols - j,
    {
        let mut acc: i64 = 0;
        let mut i: usize = 0;
        while i < rows
            invariant
                0 <= i <= rows,
                0 <= j < cols,
                rows == gv.len(),
                cols == cols_of(gv),
                wf_mat(gv),
                gv == view_of(g@),
                acc == col_sum_acc(gv, j as int, i as nat),
            decreases rows - i,
        {
            acc = fx_add(acc, g[i][j]);
            i += 1;
        }
        row.push(acc);
        j += 1;
    }
    let mut out: Vec<Vec<i64>> = Vec::new();
    out.push(row);
    assert(view_of(out@) =~= col_sums_spec(gv)) by {
        assert(view_of(out@)[0] =~= col_sums_spec(gv)[0]);
    };
    out
}

/// One gradient-descent step: `w - g * lr`, elementwise.
pub open spec fn sgd_spec(w: Seq<Seq<i64>>, g: Seq<Seq<i64>>, lr: i64) -> Seq<Seq<i64>> {
    Seq::new(w.len(), |i: int| Seq::new(w[0].len(), |j: int| spec_sub(w[i][j], spec_mul(g[i][j],
        lr))))
}

fn sgd_step(w: &Vec<Vec<i64>>, g: &Vec<Vec<i64>>, lr: i64) -> (r: Vec<Vec<i64>>)
    requires
        wf_mat(view_of(w@)),
        wf_mat(view_of(g@)),
        rows_of(view_of(g@)) == rows_of(view_of(w@)),
        cols_of(view_of(g@)) == cols_of(view_of(w@)),
    ensures
        view_of(r@) == sgd_spec(view_of(w@), view_of(g@), lr),
        wf_mat(view_of(r@)),
        rows_of(view_of(r@)) == rows_of(view_of(w@)),
        cols_of(view_of(r@)) == cols_of(view_of(w@)),
{
    let ghost wv = view_of(w@);
    let ghost gv = view_of(g@);
    let rows: usize = w.len();
    let cols: usize = w[0].len();
    let mut out: Vec<Vec<i64>> = Vec::new();
    let mut i: usize = 0;
    while i < rows
        invariant
            0 <= i <= rows,
            out@.len() == i,
            rows == wv.len(),
            cols == cols_of(wv),
            wf_mat(wv),
            wf_mat(gv),
            rows_of(gv) == rows_of(wv),
            cols_of(gv) == cols_of(wv),
            wv == view_of(w@),
            gv == view_of(g@),
            forall|k: int| 0 <= k < i ==> (#[trigger] out@[k])@ == sgd_spec(wv, gv, lr)[k],
        decreases rows - i,
    {
        let mut row: Vec<i64> = Vec::new();
        let mut j: usize = 0;
        while j < cols
            invariant
                0 <= j <= cols,
                0 <= i < rows,
                row@.len() == j,
                rows == wv.len(),
                cols == cols_of(wv),
                wf_mat(wv),
                wf_mat(gv),
                rows_of(gv) == rows_of(wv),
                cols_of(gv) == cols_of(wv),
                wv == view_of(w@),
                gv == view_of(g@),
                forall|k: int| 0 <= k < j ==> row@[k] == spec_sub(wv[i as int][k], spec_mul(
                    gv[i as int][k], lr)),
            decreases cols - j,
        {
            let t: i64 = fx_sub(w[i][j], fx_mul(g[i][j], lr));
            row.push(t);
            j += 1;
        }
        assert(row@ =~= sgd_spec(wv, gv, lr)[i as int]);
        out.push(row);
        i += 1;
    }
    assert(view_of(out@) =~= sgd_spec(wv, gv, lr));
    out
}

// ---- Dense ----

/// The linear transform `x * w + b`, with the bias broadcast over rows.
pub open spec fn dense_fwd_spec(x: Seq<Seq<i64>>, w: Seq<Seq<i64>>, b: Seq<Seq<i64>>) -> Seq<
    Seq<i64>,
> {
    add_bias_spec(mm_spec(x, w), b)
}

/// A fully-connected layer: owns a weight matrix of shape
/// `input_dim x output_dim` and a 1-row bias, both with optional recorded
/// gradients.
pub struct Dense {
    pub weights: Tensor,
    pub bias: Tensor,
}

impl Dense {
    pub open spec fn in_dim(&self) -> int {
        self.weights.spec_rows()
    }

    pub open spec fn out_dim(&self) -> int {
        self.weights.spec_cols()
    }

    /// Both parameter tensors are well formed, and the bias is one row
    /// matching the weights' column count.
    pub open spec fn wf(&self) -> bool {
        &&& self.weights.wf()
        &&& self.bias.wf()
        &&& self.bias.spec_rows() == 1
        &&& self.bias.spec_cols() == self.out_dim()
    }

    /// A layer with uniform-random weights in [0, 1) and zero bias.
    /// Fails exactly when a dimension is zero.
    pub fn new(input_dim: usize, output_dim: usize, rng: &mut RngSource) -> (r: Result<
        Dense,
        NnError,
    >)
        ensures
            input_dim > 0 && output_dim > 0 ==> (r matches Ok(d) && d.wf() && d.in_dim()
                == input_dim && d.out_dim() == output_dim && d.weights.grad_view() is None
                && d.bias.grad_view() is None
                && (forall|i: int, j: int| 0 <= i < input_dim && 0 <= j < output_dim ==> 0
                    <= #[trigger] d.weights.view()[i][j] < FX_ONE)
                && (forall|j: int| 0 <= j < output_dim ==> d.bias.view()[0][j] == 0)),
            !(input_dim > 0 && output_dim > 0) ==> (r matches Err(e) && e
                == NnError::DimensionMismatch),
    {
        if input_dim == 0 || output_dim == 0 {
            return Err(NnError::DimensionMismatch);
        }
        let weights = match Tensor::random(input_dim, output_dim, rng) {
            Ok(t) => t,
            Err(e) => {
                return Err(e);
            },
        };
        let bias = match Tensor::zeros(1, output_dim) {
            Ok(t) => t,
            Err(e) => {
                return Err(e);
            },
        };
        Ok(Dense { weights, bias })
    }

    /// Whether an input of this shape can be multiplied through.
    pub open spec fn accepts(&self, x: Seq<Seq<i64>>) -> bool {
        cols_of(x) == self.in_dim()
    }

    /// `output = input * weights + bias`.
    pub fn forward(&self, input: &Tensor) -> (r: Result<Tensor, NnError>)
        requires
            self.wf(),
            input.wf(),
        ensures
            self.accepts(input.view()) ==> (r matches Ok(t) && t.wf() && t.grad_view() is None
                && t.view() == dense_fwd_spec(input.view(), self.weights.view(), self.bias.view())
                && t.spec_rows() == input.spec_rows() && t.spec_cols() == self.out_dim()),
            !self.accepts(input.view()) ==> (r matches Err(e) && e == NnError::DimensionMismatch),
    {
        if input.data[0].len() != self.weights.data.len() {
            return Err(NnError::DimensionMismatch);
        }
        let z = matmul(&input.data, &self.weights.data);
        let out = add_bias(&z, &self.bias.data);
        Ok(Tensor { data: out, grad: None })
    }

    /// Whether a backward pass with this forward input and output
    /// gradient is well shaped.
    pub open spec fn accepts_bwd(&self, x: Seq<Seq<i64>>, g: Seq<Seq<i64>>) -> bool {
        &&& cols_of(x) == self.in_dim()
        &&& rows_of(g) == rows_of(x)
        &&& cols_of(g) == self.out_dim()
    }

    /// Records `grad_weights = input^T * grad_output` and `grad_bias` as
    /// the column sums of `grad_output` on the parameter tensors, and
    /// returns `grad_input = grad_output * weights^T`.
    pub fn backward(&mut self, input: &Tensor, grad_output: &Tensor) -> (r: Result<
        Tensor,
        NnError,
    >)
        requires
            old(self).wf(),
            input.wf(),
            grad_output.wf(),
        ensures
            final(self).wf(),
            old(self).accepts_bwd(input.view(), grad_output.view()) ==> (r matches Ok(t)
                && t.wf() && t.grad_view() is None
                && t.view() == mm_spec(grad_output.view(), transpose_spec(old(
                self).weights.view()))
                && t.spec_rows() == input.spec_rows() && t.spec_cols() == old(self).in_dim()
                && final(self).weights.view() == old(self).weights.view()
                && final(self).bias.view() == old(self).bias.view()
                && final(self).weights.grad_view() == Some(mm_spec(transpose_spec(input.view()),
                grad_output.view()))
                && final(self).bias.grad_view() == Some(col_sums_spec(grad_output.view()))),
            !old(self).accepts_bwd(input.view(), grad_output.view()) ==> (r matches Err(e) && e
                == NnError::DimensionMismatch && *final(self) == *old(self)),
    {
        if input.data[0].len() != self.weights.data.len()
            || grad_output.data.len() != input.data.len()
            || grad_output.data[0].len() != self.weights.data[0].len() {
            return Err(NnError::DimensionMismatch);
        }
        let xt = transpose(&input.data);
        let gw = matmul(&xt, &grad_output.data);
        let gb = col_sums(&grad_output.data);
        self.weights.grad = Some(gw);
        self.bias.grad = Some(gb);
        let wt = transpose(&self.weights.data);
        let gi = matmul(&grad_output.data, &wt);
        Ok(Tensor { data: gi, grad: None })
    }

    /// Subtracts `learning_rate * grad` from each parameter that has a
    /// recorded gradient; a no-op for a parameter without one. Recorded
    /// gradients are kept, not cleared.
    pub fn update_parameters(&mut self, learning_rate: i64)
        requires
            old(self).wf(),
        ensures
            final(self).wf(),
            final(self).in_dim() == old(self).in_dim(),
            final(self).out_dim() == old(self).out_dim(),
            final(self).weights.grad_view() == old(self).weights.grad_view(),
            final(self).bias.grad_view() == old(self).bias.grad_view(),
            match old(self).weights.grad_view() {
                Some(g) => final(self).weights.view() == sgd_spec(old(self).weights.view(), g,
                    learning_rate),
                None => final(self).weights.view() == old(self).weights.view(),
            },
            match old(self).bias.grad_view() {
                Some(g) => final(self).bias.view() == sgd_spec(old(self).bias.view(), g,
                    learning_rate),
                None => final(self).bias.view() == old(self).bias.view(),
            },
    {
        let w_new: Option<Vec<Vec<i64>>> = match &self.weights.grad {
            Some(g) => Some(sgd_step(&self.weights.data, g, learning_rate)),
            None => None,
        };
        if let Some(w) = w_new {
            self.weights.data = w;
        }
        let b_new: Option<Vec<Vec<i64>>> = match &self.bias.grad {
            Some(g) => Some(sgd_step(&self.bias.data, g, learning_rate)),
            None => None,
        };
        if let Some(b) = b_new {
            self.bias.data = b;
        }
    }
}

// ---- ReLU ----

pub open spec fn relu_val(x: i64) -> i64 {
    if x > 0 {
        x
    } else {
        0
    }
}

/// `FX_ONE` where the forward input was strictly positive, else zero.
pub open spec fn relu_ind(x: i64) -> i64 {
    if x > 0 {
        FX_ONE
    } else {
        0
    }
}

pub open spec fn relu_fwd_spec(m: Seq<Seq<i64>>) -> Seq<Seq<i64>> {
    Seq::new(m.len(), |i: int| Seq::new(m[0].len(), |j: int| relu_val(m[i][j])))
}

pub open spec fn relu_bwd_spec(x: Seq<Seq<i64>>, g: Seq<Seq<i64>>) -> Seq<Seq<i64>> {
    Seq::new(x.len(), |i: int| Seq::new(x[0].len(), |j: int| spec_mul(relu_ind(x[i][j]),
        g[i][j])))
}

/// The rectified-linear activation; owns no state.
pub struct ReLU;

impl ReLU {
    pub fn new() -> ReLU {
        ReLU
    }

    /// Elementwise `max(0, x)`.
    pub fn forward(&self, input: &Tensor) -> (r: Tensor)
        requires
            input.wf(),
        ensures
            r.wf(),
            r.grad_view() is None,
            r.view() == relu_fwd_spec(input.view()),
            r.spec_rows() == input.spec_rows(),
            r.spec_cols() == input.spec_cols(),
    {
        let ghost mv = input.view();
        let rows: usize = input.data.len();
        let cols: usize = input.data[0].len();
        let mut out: Vec<Vec<i64>> = Vec::new();
        let mut i: usize = 0;
        while i < rows
            invariant
                0 <= i <= rows,
                out@.len() == i,
                rows == mv.len(),
                cols == cols_of(mv),
                wf_mat(mv),
                mv == input.view(),
                forall|k: int| 0 <= k < i ==> (#[trigger] out@[k])@ == relu_fwd_spec(mv)[k],
            decreases rows - i,
        {
            let mut row: Vec<i64> = Vec::new();
            let mut j: usize = 0;
            while j < cols
                invariant
                    0 <= j <= cols,
                    0 <= i < rows,
                    row@.len() == j,
                    rows == mv.len(),
                    cols == cols_of(mv),
                    wf_mat(mv),
                    mv == input.view(),
                    forall|k: int| 0 <= k < j ==> row@[k] == relu_val(mv[i as int][k]),
                decreases cols - j,
            {
                let x: i64 = input.data[i][j];
                let v: i64 = if x > 0 {
                    x
                } else {
                    0
                };
                row.push(v);
                j += 1;
            }
            assert(row@ =~= relu_fwd_spec(mv)[i as int]);
            out.push(row);
            i += 1;
        }
        assert(view_of(out@) =~= relu_fwd_spec(mv));
        Tensor { data: out, grad: None }
    }

    /// `grad_input = grad_output` where the forward input was strictly
    /// positive, else zero; the gradient at exactly zero is zero.
    pub fn backward(&self, input: &Tensor, grad_output: &Tensor) -> (r: Result<Tensor, NnError>)
        requires
            input.wf(),
            grad_output.wf(),
        ensures
            same_shape(input.view(), grad_output.view()) ==> (r matches Ok(t) && t.wf()
                && t.grad_view() is None && t.view() == relu_bwd_spec(input.view(),
                grad_output.view()) && t.spec_rows() == input.spec_rows() && t.spec_cols()
                == input.spec_cols()),
            !same_shape(input.view(), grad_output.view()) ==> (r matches Err(e) && e
                == NnError::DimensionMismatch),
    {
        if grad_output.data.len() != input.data.len()
            || grad_output.data[0].len() != input.data[0].len() {
            return Err(NnError::DimensionMismatch);
        }
        let ghost mv = input.view();
        let ghost gv = grad_output.view();
        let rows: usize = input.data.len();
        let cols: usize = input.data[0].len();
        let mut out: Vec<Vec<i64>> = Vec::new();
        let mut i: usize = 0;
        while i < rows
            invariant
                0 <= i <= rows,
                out@.len() == i,
                rows == mv.len(),
                cols == cols_of(mv),
                wf_mat(mv),
                wf_mat(gv),
                same_shape(mv, gv),
                mv == input.view(),
                gv == grad_output.view(),
                forall|k: int| 0 <= k < i ==> (#[trigger] out@[k])@ == relu_bwd_spec(mv, gv)[k],
            decreases rows - i,
        {
            let mut row: Vec<i64> = Vec::new();
            let mut j: usize = 0;
            while j < cols
                invariant
                    0 <= j <= cols,
                    0 <= i < rows,
                    row@.len() == j,
                    rows == mv.len(),
                    cols == cols_of(mv),
                    wf_mat(mv),
                    wf_mat(gv),
                    same_shape(mv, gv),
                    mv == input.view(),
                    gv == grad_output.view(),
                    forall|k: int| 0 <= k < j ==> row@[k] == spec_mul(relu_ind(mv[i as int][k]),
                        gv[i as int][k]),
                decreases cols - j,
            {
                let x: i64 = input.data[i][j];
                let ind: i64 = if x > 0 {
                    FX_ONE
                } else {
                    0
                };
                let t: i64 = fx_mul(ind, grad_output.data[i][j]);
                row.push(t);
                j += 1;
            }
            assert(row@ =~= relu_bwd_spec(mv, gv)[i as int]);
            out.push(row);
            i += 1;
        }
        assert(view_of(out@) =~= relu_bwd_spec(mv, gv));
        Ok(Tensor { data: out, grad: None })
    }
}

/// Two matrices have identical shape.
pub open spec fn same_shape(a: Seq<Seq<i64>>, b: Seq<Seq<i64>>) -> bool {
    rows_of(a) == rows_of(b) && cols_of(a) == cols_of(b)
}

// ---- Sigmoid ----

/// The logistic function `1 / (1 + e^-x)`.
pub open spec fn sigmoid_val(x: i64) -> i64 {
    spec_div(FX_ONE, spec_add(FX_ONE, spec_exp(spec_neg(x))))
}

/// `s * (1 - s) * g` with `s` recomputed from the forward input.
pub open spec fn sigmoid_bwd_val(x: i64, g: i64) -> i64 {
    spec_mul(spec_mul(sigmoid_val(x), spec_sub(FX_ONE, sigmoid_val(x))), g)
}

pub open spec fn sigmoid_fwd_spec(m: Seq<Seq<i64>>) -> Seq<Seq<i64>> {
    Seq::new(m.len(), |i: int| Seq::new(m[0].len(), |j: int| sigmoid_val(m[i][j])))
}

pub open spec fn sigmoid_bwd_spec(x: Seq<Seq<i64>>, g: Seq<Seq<i64>>) -> Seq<Seq<i64>> {
    Seq::new(x.len(), |i: int| Seq::new(x[0].len(), |j: int| sigmoid_bwd_val(x[i][j], g[i][j])))
}

fn sigmoid_entry(x: i64) -> (r: i64)
    ensures
        r == sigmoid_val(x),
{
    fx_div(FX_ONE, fx_add(FX_ONE, fx_exp(fx_neg(x))))
}

/// The logistic activation; owns no state.
pub struct Sigmoid;

impl Sigmoid {
    pub fn new() -> Sigmoid {
        Sigmoid
    }

    /// Elementwise logistic function.
    pub fn forward(&self, input: &Tensor) -> (r: Tensor)
        requires
            input.wf(),
        ensures
            r.wf(),
            r.grad_view() is None,
            r.view() == sigmoid_fwd_spec(input.view()),
            r.spec_rows() == input.spec_rows(),
            r.spec_cols() == input.spec_cols(),
    {
        let ghost mv = input.view();
        let rows: usize = input.data.len();
        let cols: usize = input.data[0].len();
        let mut out: Vec<Vec<i64>> = Vec::new();
        let mut i: usize = 0;
        while i < rows
            invariant
                0 <= i <= rows,
                out@.len() == i,
                rows == mv.len(),
                cols == cols_of(mv),
                wf_mat(mv),
                mv == input.view(),
                forall|k: int| 0 <= k < i ==> (#[trigger] out@[k])@ == sigmoid_fwd_spec(mv)[k],
            decreases rows - i,
        {
            let mut row: Vec<i64> = Vec::new();
            let mut j: usize = 0;
            while j < cols
                invariant
                    0 <= j <= cols,
                    0 <= i < rows,
                    row@.len() == j,
                    rows == mv.len(),
                    cols == cols_of(mv),
                    wf_mat(mv),
                    mv == input.view(),
                    forall|k: int| 0 <= k < j ==> row@[k] == sigmoid_val(mv[i as int][k]),
                decreases cols - j,
            {
                let v: i64 = sigmoid_entry(input.data[i][j]);
                row.push(v);
                j += 1;
            }
            assert(row@ =~= sigmoid_fwd_spec(mv)[i as int]);
            out.push(row);
            i += 1;
        }
        assert(view_of(out@) =~= sigmoid_fwd_spec(mv));
        Tensor { data: out, grad: None }
    }

    /// `grad_input = s * (1 - s) * grad_output`, with `s` recomputed from
    /// the forward input.
    pub fn backward(&self, input: &Tensor, grad_output: &Tensor) -> (r: Result<Tensor, NnError>)
        requires
            input.wf(),
            grad_output.wf(),
        ensures
            same_shape(input.view(), grad_output.view()) ==> (r matches Ok(t) && t.wf()
                && t.grad_view() is None && t.view() == sigmoid_bwd_spec(input.view(),
                grad_output.view()) && t.spec_rows() == input.spec_rows() && t.spec_cols()
                == input.spec_cols()),
            !same_shape(input.view(), grad_output.view()) ==> (r matches Err(e) && e
                == NnError::DimensionMismatch),
    {
        if grad_output.data.len() != input.data.len()
            || grad_output.data[0].len() != input.data[0].len() {
            return Err(NnError::DimensionMismatch);
        }
        let ghost mv = input.view();
        let ghost gv = grad_output.view();
        let rows: usize = input.data.len();
        let cols: usize = input.data[0].len();
        let mut out: Vec<Vec<i64>> = Vec::new();
        let mut i: usize = 0;
        while i < rows
            invariant
                0 <= i <= rows,
                out@.len() == i,
                rows == mv.len(),
                cols == cols_of(mv),
                wf_mat(mv),
                wf_mat(gv),
                same_shape(mv, gv),
                mv == input.view(),
                gv == grad_output.view(),
                forall|k: int| 0 <= k < i ==> (#[trigger] out@[k])@ == sigmoid_bwd_spec(mv, gv)[k],
            decreases rows - i,
        {
            let mut row: Vec<i64> = Vec::new();
            let mut j: usize = 0;
            while j < cols
                invariant
                    0 <= j <= cols,
                    0 <= i < rows,
                    row@.len() == j,
                    rows == mv.len(),
                    cols == cols_of(mv),
                    wf_mat(mv),
                    wf_mat(gv),
                    same_shape(mv, gv),
                    mv == input.view(),
                    gv == grad_output.view(),
                    forall|k: int| 0 <= k < j ==> row@[k] == sigmoid_bwd_val(mv[i as int][k],
                        gv[i as int][k]),
                decreases cols - j,
            {
                let s: i64 = sigmoid_entry(input.data[i][j]);
                let t: i64 = fx_mul(fx_mul(s, fx_sub(FX_ONE, s)), grad_output.data[i][j]);
                row.push(t);
                j += 1;
            }
            assert(row@ =~= sigmoid_bwd_spec(mv, gv)[i as int]);
            out.push(row);
            i += 1;
        }
        assert(view_of(out@) =~= sigmoid_bwd_spec(mv, gv));
        Ok(Tensor { data: out, grad: None })
    }
}

// ---- Tanh ----

/// The hyperbolic tangent `(e^2x - 1) / (e^2x + 1)`.
pub open spec fn tanh_val(x: i64) -> i64 {
    spec_div(spec_sub(spec_exp(spec_add(x, x)), FX_ONE), spec_add(spec_exp(spec_add(x, x)),
        FX_ONE))
}

/// `(1 - t^2) * g` with `t` recomputed from the forward input.
pub open spec fn tanh_bwd_val(x: i64, g: i64) -> i64 {
    spec_mul(spec_sub(FX_ONE, spec_mul(tanh_val(x), tanh_val(x))), g)
}

pub open spec fn tanh_fwd_spec(m: Seq<Seq<i64>>) -> Seq<Seq<i64>> {
    Seq::new(m.len(), |i: int| Seq::new(m[0].len(), |j: int| tanh_val(m[i][j])))
}

pub open spec fn tanh_bwd_spec(x: Seq<Seq<i64>>, g: Seq<Seq<i64>>) -> Seq<Seq<i64>> {
    Seq::new(x.len(), |i: int| Seq::new(x[0].len(), |j: int| tanh_bwd_val(x[i][j], g[i][j])))
}

fn tanh_entry(x: i64) -> (r: i64)
    ensures
        r == tanh_val(x),
{
    let e2: i64 = fx_exp(fx_add(x, x));
    fx_div(fx_sub(e2, FX_ONE), fx_add(e2, FX_ONE))
}

/// The hyperbolic-tangent activation; owns no state.
pub struct Tanh;

impl Tanh {
    pub fn new() -> Tanh {
        Tanh
    }

    /// Elementwise hyperbolic tangent.
    pub fn forward(&self, input: &Tensor) -> (r: Tensor)
        requires
            input.wf(),
        ensures
            r.wf(),
            r.grad_view() is None,
            r.view() == tanh_fwd_spec(input.view()),
            r.spec_rows() == input.spec_rows(),
            r.spec_cols() == input.spec_cols(),
    {
        let ghost mv = input.view();
        let rows: usize = input.data.len();
        let cols: usize = input.data[0].len();
        let mut out: Vec<Vec<i64>> = Vec::new();
        let mut i: usize = 0;
        while i < rows
            invariant
                0 <= i <= rows,
                out@.len() == i,
                rows == mv.len(),
                cols == cols_of(mv),
                wf_mat(mv),
                mv == input.view(),
                forall|k: int| 0 <= k < i ==> (#[trigger] out@[k])@ == tanh_fwd_spec(mv)[k],
            decreases rows - i,
        {
            let mut row: Vec<i64> = Vec::new();
            let mut j: usize = 0;
            while j < cols
                invariant
                    0 <= j <= cols,
                    0 <= i < rows,
                    row@.len() == j,
                    rows == mv.len(),
                    cols == cols_of(mv),
                    wf_mat(mv),
                    mv == input.view(),
                    forall|k: int| 0 <= k < j ==> row@[k] == tanh_val(mv[i as int][k]),
                decreases cols - j,
            {
                let v: i64 = tanh_entry(input.data[i][j]);
                row.push(v);
                j += 1;
            }
            assert(row@ =~= tanh_fwd_spec(mv)[i as int]);
            out.push(row);
            i += 1;
        }
        assert(view_of(out@) =~= tanh_fwd_spec(mv));
        Tensor { data: out, grad: None }
    }

    /// `grad_input = (1 - t^2) * grad_output`, with `t` recomputed from
    /// the forward input.
    pub fn backward(&self, input: &Tensor, grad_output: &Tensor) -> (r: Result<Tensor, NnError>)
        requires
            input.wf(),
            grad_output.wf(),
        ensures
            same_shape(input.view(), grad_output.view()) ==> (r matches Ok(t) && t.wf()
                && t.grad_view() is None && t.view() == tanh_bwd_spec(input.view(),
                grad_output.view()) && t.spec_rows() == input.spec_rows() && t.spec_cols()
                == input.spec_cols()),
            !same_shape(input.view(), grad_output.view()) ==> (r matches Err(e) && e
                == NnError::DimensionMismatch),
    {
        if grad_output.data.len() != input.data.len()
            || grad_output.data[0].len() != input.data[0].len() {
            return Err(NnError::DimensionMismatch);
        }
        let ghost mv = input.view();
        let ghost gv = grad_output.view();
        let rows: usize = input.data.len();
        let cols: usize = input.data[0].len();
        let mut out: Vec<Vec<i64>> = Vec::new();
        let mut i: usize = 0;
        while i < rows
            invariant
                0 <= i <= rows,
                out@.len() == i,
                rows == mv.len(),
                cols == cols_of(mv),
                wf_mat(mv),
                wf_mat(gv),
                same_shape(mv, gv),
                mv == input.view(),
                gv == grad_output.view(),
                forall|k: int| 0 <= k < i ==> (#[trigger] out@[k])@ == tanh_bwd_spec(mv, gv)[k],
            decreases rows - i,
        {
            let mut row: Vec<i64> = Vec::new();
            let mut j: usize = 0;
            while j < cols
                invariant
                    0 <= j <= cols,
                    0 <= i < rows,
                    row@.len() == j,
                    rows == mv.len(),
                    cols == cols_of(mv),
                    wf_mat(mv),
                    wf_mat(gv),
                    same_shape(mv, gv),
                    mv == input.view(),
                    gv == grad_output.view(),
                    forall|k: int| 0 <= k < j ==> row@[k] == tanh_bwd_val(mv[i as int][k],
                        gv[i as int][k]),
                decreases cols - j,
            {
                let t: i64 = tanh_entry(input.data[i][j]);
                let v: i64 = fx_mul(fx_sub(FX_ONE, fx_mul(t, t)), grad_output.data[i][j]);
                row.push(v);
                j += 1;
            }
            assert(row@ =~= tanh_bwd_spec(mv, gv)[i as int]);
            out.push(row);
            i += 1;
        }
        assert(view_of(out@) =~= tanh_bwd_spec(mv, gv));
        Ok(Tensor { data: out, grad: None })
    }
}

// ---- Softmax ----

/// Largest of the first `k` entries (`k >= 1`).
pub open spec fn row_max_upto(r: Seq<i64>, k: nat) -> i64
    decreases k,
{
    if k <= 1 {
        r[0]
    } else {
        let m = row_max_upto(r, (k - 1) as nat);
        if r[k - 1] > m {
            r[k - 1]
        } else {
            m
        }
    }
}

pub open spec fn row_max(r: Seq<i64>) -> i64 {
    row_max_upto(r, r.len())
}

/// Saturating sum of the first `k` entries.
pub open spec fn sum_upto(r: Seq<i64>, k: nat) -> i64
    decreases k,
{
    if k == 0 {
        0
    } else {
        spec_add(sum_upto(r, (k - 1) as nat), r[k - 1])
    }
}

/// The row shifted down by its maximum and exponentiated.
pub open spec fn softmax_exps(r: Seq<i64>) -> Seq<i64> {
    Seq::new(r.len(), |j: int| spec_exp(spec_sub(r[j], row_max(r))))
}

/// One softmax row: exponentials of the max-shifted entries, each divided
/// by their sum.
pub open spec fn softmax_row_spec(r: Seq<i64>) -> Seq<i64> {
    Seq::new(r.len(), |j: int| spec_div(softmax_exps(r)[j], sum_upto(softmax_exps(r),
        softmax_exps(r).len())))
}

pub open spec fn softmax_fwd_spec(m: Seq<Seq<i64>>) -> Seq<Seq<i64>> {
    Seq::new(m.len(), |i: int| softmax_row_spec(m[i]))
}

/// Saturating dot product of the first `k` pairs.
pub open spec fn dot_upto(a: Seq<i64>, b: Seq<i64>, k: nat) -> i64
    decreases k,
{
    if k == 0 {
        0
    } else {
        spec_add(dot_upto(a, b, (k - 1) as nat), spec_mul(a[k - 1], b[k - 1]))
    }
}

/// One backward softmax row: `s * (g - sum(s * g))` with `s` the softmax
/// of the forward input row.
pub open spec fn softmax_bwd_row(x: Seq<i64>, g: Seq<i64>) -> Seq<i64> {
    Seq::new(x.len(), |j: int| spec_mul(softmax_row_spec(x)[j], spec_sub(g[j], dot_upto(
        softmax_row_spec(x), g, x.len()))))
}

pub open spec fn softmax_bwd_spec(x: Seq<Seq<i64>>, g: Seq<Seq<i64>>) -> Seq<Seq<i64>> {
    Seq::new(x.len(), |i: int| softmax_bwd_row(x[i], g[i]))
}

/// The softmax of one row.
fn softmax_row_exec(row: &Vec<i64>) -> (r: Vec<i64>)
    requires
        row@.len() > 0,
    ensures
        r@ == softmax_row_spec(row@),
        r@.len() == row@.len(),
{
    let n: usize = row.len();
    let mut mx: i64 = row[0];
    let mut i: usize = 1;
    while i < n
        invariant
            1 <= i <= n,
            n == row@.len(),
            mx == row_max_upto(row@, i as nat),
        decreases n - i,
    {
        if row[i] > mx {
            mx = row[i];
        }
        i += 1;
    }
    assert(mx == row_max(row@));
    let mut exps: Vec<i64> = Vec::new();
    let mut j: usize = 0;
    while j < n
        invariant
            0 <= j <= n,
            n == row@.len(),
            mx == row_max(row@),
            exps@.len() == j,
            forall|k: int| 0 <= k < j ==> exps@[k] == softmax_exps(row@)[k],
        decreases n - j,
    {
        let e: i64 = fx_exp(fx_sub(row[j], mx));
        exps.push(e);
        j += 1;
    }
    assert(exps@ =~= softmax_exps(row@));
    let mut total: i64 = 0;
    let mut k: usize = 0;
    while k < n
        invariant
            0 <= k <= n,
            n == exps@.len(),
            exps@ == softmax_exps(row@),
            total == sum_upto(exps@, k as nat),
        decreases n - k,
    {
        total = fx_add(total, exps[k]);
        k += 1;
    }
    assert(total == sum_upto(softmax_exps(row@), softmax_exps(row@).len()));
    let mut out: Vec<i64> = Vec::new();
    let mut j2: usize = 0;
    while j2 < n
        invariant
            0 <= j2 <= n,
            n == exps@.len(),
            n == row@.len(),
            exps@ == softmax_exps(row@),
            total == sum_upto(softmax_exps(row@), softmax_exps(row@).len()),
            out@.len() == j2,
            forall|k2: int| 0 <= k2 < j2 ==> out@[k2] == softmax_row_spec(row@)[k2],
        decreases n - j2,
    {
        let v: i64 = fx_div(exps[j2], total);
        out.push(v);
        j2 += 1;
    }
    assert(out@ =~= softmax_row_spec(row@));
    out
}

/// The row-wise softmax activation; owns no state.
pub struct Softmax;

impl Softmax {
    pub fn new() -> Softmax {
        Softmax
    }

    /// Row-wise softmax: subtract the row maximum, exponentiate, divide
    /// by the row sum.
    pub fn forward(&self, input: &Tensor) -> (r: Tensor)
        requires
            input.wf(),
        ensures
            r.wf(),
            r.grad_view() is None,
            r.view() == softmax_fwd_spec(input.view()),
            r.spec_rows() == input.spec_rows(),
            r.spec_cols() == input.spec_cols(),
    {
        let ghost mv = input.view();
        let rows: usize = input.data.len();
        let cols: usize = input.data[0].len();
        let mut out: Vec<Vec<i64>> = Vec::new();
        let mut i: usize = 0;
        while i < rows
            invariant
                0 <= i <= rows,
                out@.len() == i,
                rows == mv.len(),
                cols == cols_of(mv),
                wf_mat(mv),
                mv == input.view(),
                forall|k: int| 0 <= k < i ==> (#[trigger] out@[k])@ == softmax_fwd_spec(mv)[k],
            decreases rows - i,
        {
            let row = softmax_row_exec(&input.data[i]);
            assert(row@ == softmax_fwd_spec(mv)[i as int]);
            out.push(row);
            i += 1;
        }
        assert(view_of(out@) =~= softmax_fwd_spec(mv));
        Tensor { data: out, grad: None }
    }

    /// `grad_input = s * (grad_output - rowsum(s * grad_output))` per
    /// row, with `s` the softmax recomputed from the forward input.
    pub fn backward(&self, input: &Tensor, grad_output: &Tensor) -> (r: Result<Tensor, NnError>)
        requires
            input.wf(),
            grad_output.wf(),
        ensures
            same_shape(input.view(), grad_output.view()) ==> (r matches Ok(t) && t.wf()
                && t.grad_view() is None && t.view() == softmax_bwd_spec(input.view(),
                grad_output.view()) && t.spec_rows() == input.spec_rows() && t.spec_cols()
                == input.spec_cols()),
            !same_shape(input.view(), grad_output.view()) ==> (r matches Err(e) && e
                == NnError::DimensionMismatch),
    {
        if grad_output.data.len() != input.data.len()
            || grad_output.data[0].len() != input.data[0].len() {
            return Err(NnError::DimensionMismatch);
        }
        let ghost mv = input.view();
        let ghost gv = grad_output.view();
        let rows: usize = input.data.len();
        let cols: usize = input.data[0].len();
        let mut out: Vec<Vec<i64>> = Vec::new();
        let mut i: usize = 0;
        while i < rows
            invariant
                0 <= i <= rows,
                out@.len() == i,
                rows == mv.len(),
                cols == cols_of(mv),
                wf_mat(mv),
                wf_mat(gv),
                same_shape(mv, gv),
                mv == input.view(),
                gv == grad_output.view(),
                forall|k: int| 0 <= k < i ==> (#[trigger] out@[k])@ == softmax_bwd_spec(mv, gv)[k],
            decreases rows - i,
        {
            let s = softmax_row_exec(&input.data[i]);
            let ghost sv = softmax_row_spec(mv[i as int]);
            let mut dot: i64 = 0;
            let mut j: usize = 0;
            while j < cols
                invariant
                    0 <= j <= cols,
                    0 <= i < rows,
                    rows == mv.len(),
                    cols == cols_of(mv),
                    wf_mat(mv),
                    wf_mat(gv),
                    same_shape(mv, gv),
                    mv == input.view(),
                    gv == grad_output.view(),
                    s@ == sv,
                    sv == softmax_row_spec(mv[i as int]),
                    s@.len() == cols,
                    dot == dot_upto(sv, gv[i as int], j as nat),
                decreases cols - j,
            {
                dot = fx_add(dot, fx_mul(s[j], grad_output.data[i][j]));
                j += 1;
            }
            assert(dot == dot_upto(sv, gv[i as int], mv[i as int].len() as nat));
            let mut row: Vec<i64> = Vec::new();
            let mut j2: usize = 0;
            while j2 < cols
                invariant
                    0 <= j2 <= cols,
                    0 <= i < rows,
                    rows == mv.len(),
                    cols == cols_of(mv),
                    wf_mat(mv),
                    wf_mat(gv),
                    same_shape(mv, gv),
                    mv == input.view(),
                    gv == grad_output.view(),
                    s@ == sv,
                    sv == softmax_row_spec(mv[i as int]),
                    s@.len() == cols,
                    dot == dot_upto(sv, gv[i as int], mv[i as int].len() as nat),
                    row@.len() == j2,
                    forall|k: int| 0 <= k < j2 ==> row@[k] == softmax_bwd_row(mv[i as int],
                        gv[i as int])[k],
                decreases cols - j2,
            {
                let v: i64 = fx_mul(s[j2], fx_sub(grad_output.data[i][j2], dot));
                row.push(v);
                j2 += 1;
            }
            assert(row@ =~= softmax_bwd_row(mv[i as int], gv[i as int]));
            out.push(row);
            i += 1;
        }
        assert(view_of(out@) =~= softmax_bwd_spec(mv, gv));
        Ok(Tensor { data: out, grad: None })
    }
}

// ---- Dropout ----

/// Inverted dropout: owns the configured drop probability and the mask
/// realized by the latest forward pass, valid until that pass's matching
/// backward call.
pub struct Dropout {
    pub prob: i64,
    /// The realized mask; written by `forward`, read by `backward`.
    pub mask: Option<Tensor>,
}

impl Dropout {
    /// The mask recorded by the latest forward pass, if any.
    pub open spec fn mask_view(&self) -> Option<Seq<Seq<i64>>> {
        match self.mask {
            Some(m) => Some(m.view()),
            None => None,
        }
    }

    pub open spec fn wf(&self) -> bool {
        match self.mask {
            Some(m) => m.wf(),
            None => true,
        }
    }

    /// A dropout stage with the given drop probability and no mask yet.
    pub fn new(prob: i64) -> (r: Dropout)
        ensures
            r.prob == prob,
            r.mask_view() is None,
            r.wf(),
    {
        Dropout { prob, mask: None }
    }
}

/// What one dropout forward pass guarantees, whatever the draws were:
/// the keep probability is `1 - prob`; with it zero or less every entry
/// is dropped; otherwise each mask entry is either the inverted keep
/// probability or zero and the output is the input scaled by the mask;
/// and with probability zero the mask is the identity scale and the
/// output equals the input exactly.
pub open spec fn dropout_fwd_rel(pre: Dropout, post: Dropout, x: Seq<Seq<i64>>, y: Seq<
    Seq<i64>,
>) -> bool {
    let kp = spec_sub(FX_ONE, pre.prob);
    &&& post.prob == pre.prob
    &&& match post.mask_view() {
        Some(mk) => {
            &&& wf_mat(mk)
            &&& same_shape(mk, x)
            &&& same_shape(y, x)
            &&& (kp <= 0 ==> forall|i: int, j: int|
                0 <= i < rows_of(x) && 0 <= j < cols_of(x) ==> #[trigger] mk[i][j] == 0)
            &&& (kp <= 0 ==> forall|i: int, j: int|
                0 <= i < rows_of(x) && 0 <= j < cols_of(x) ==> #[trigger] y[i][j] == 0)
            &&& (kp > 0 ==> forall|i: int, j: int|
                0 <= i < rows_of(x) && 0 <= j < cols_of(x) ==> (#[trigger] mk[i][j] == spec_div(
                    FX_ONE, kp) || mk[i][j] == 0))
            &&& (kp > 0 ==> forall|i: int, j: int|
                0 <= i < rows_of(x) && 0 <= j < cols_of(x) ==> #[trigger] y[i][j] == spec_mul(
                    x[i][j], mk[i][j]))
            &&& (pre.prob == 0 ==> y == x)
            &&& (pre.prob == 0 ==> forall|i: int, j: int|
                0 <= i < rows_of(x) && 0 <= j < cols_of(x) ==> #[trigger] mk[i][j] == FX_ONE)
        },
        None => false,
    }
}

impl Dropout {
    /// Draws one keep decision per entry; kept entries are scaled by
    /// `1 / (1 - prob)`, dropped entries are zero, and the realized mask
    /// is cached. A keep probability of zero or less drops everything
    /// (no division by zero); a drop probability of zero passes the
    /// input through exactly.
    pub fn forward(&mut self, input: &Tensor, rng: &mut RngSource) -> (r: Tensor)
        requires
            old(self).wf(),
            input.wf(),
        ensures
            final(self).wf(),
            r.wf(),
            r.grad_view() is None,
            r.spec_rows() == input.spec_rows(),
            r.spec_cols() == input.spec_cols(),
            dropout_fwd_rel(*old(self), *final(self), input.view(), r.view()),
    {
        let ghost mv = input.view();
        let rows: usize = input.data.len();
        let cols: usize = input.data[0].len();
        let kp: i64 = fx_sub(FX_ONE, self.prob);
        if kp <= 0 {
            let mask = zero_mat(rows, cols);
            let out = zero_mat(rows, cols);
            self.mask = Some(Tensor { data: mask, grad: None });
            return Tensor { data: out, grad: None };
        }
        let scale: i64 = fx_div(FX_ONE, kp);
        proof {
            if self.prob == 0 {
                lemma_one_div_one();
            }
        }
        let mut mask: Vec<Vec<i64>> = Vec::new();
        let mut out: Vec<Vec<i64>> = Vec::new();
        let mut i: usize = 0;
        while i < rows
            invariant
                0 <= i <= rows,
                mask@.len() == i,
                out@.len() == i,
                rows == mv.len(),
                cols == cols_of(mv),
                wf_mat(mv),
                mv == input.view(),
                0 < kp,
                kp == spec_sub(FX_ONE, self.prob),
                scale == spec_div(FX_ONE, kp),
                self.prob == old(self).prob,
                self.prob == 0 ==> scale == FX_ONE,
                forall|k: int| 0 <= k < i ==> (#[trigger] mask@[k])@.len() == cols,
                forall|k: int| 0 <= k < i ==> (#[trigger] out@[k])@.len() == cols,
                forall|k: int, j: int| 0 <= k < i && 0 <= j < cols ==> (#[trigger] mask@[k]@[j]
                    == scale || mask@[k]@[j] == 0),
                forall|k: int, j: int| 0 <= k < i && 0 <= j < cols ==> #[trigger] out@[k]@[j]
                    == spec_mul(mv[k][j], mask@[k]@[j]),
                self.prob == 0 ==> forall|k: int, j: int| 0 <= k < i && 0 <= j < cols ==>
                    #[trigger] mask@[k]@[j] == FX_ONE,
                self.prob == 0 ==> forall|k: int, j: int| 0 <= k < i && 0 <= j < cols ==>
                    #[trigger] out@[k]@[j] == mv[k][j],
            decreases rows - i,
        {
            let mut mrow: Vec<i64> = Vec::new();
            let mut orow: Vec<i64> = Vec::new();
            let mut j: usize = 0;
            while j < cols
                invariant
                    0 <= j <= cols,
                    0 <= i < rows,
                    mrow@.len() == j,
                    orow@.len() == j,
                    rows == mv.len(),
                    cols == cols_of(mv),
                    wf_mat(mv),
                    mv == input.view(),
                    0 < kp,
                    kp == spec_sub(FX_ONE, self.prob),
                    scale == spec_div(FX_ONE, kp),
                    self.prob == old(self).prob,
                    self.prob == 0 ==> scale == FX_ONE,
                    forall|k: int| 0 <= k < j ==> (#[trigger] mrow@[k] == scale || mrow@[k] == 0),
                    forall|k: int| 0 <= k < j ==> #[trigger] orow@[k] == spec_mul(mv[i as int][k],
                        mrow@[k]),
                    self.prob == 0 ==> forall|k: int| 0 <= k < j ==> #[trigger] mrow@[k]
                        == FX_ONE,
                    self.prob == 0 ==> forall|k: int| 0 <= k < j ==> #[trigger] orow@[k]
                        == mv[i as int][k],
                decreases cols - j,
            {
                let d: i64 = rng.next_unit();
                let m: i64 = if d < kp {
                    scale
                } else {
                    0
                };
                let x: i64 = input.data[i][j];
                let o: i64 = fx_mul(x, m);
                proof {
                    if self.prob == 0 {
                        assert(kp == FX_ONE);
                        assert(d < kp);
                        lemma_mul_one(x);
                    }
                }
                mrow.push(m);
                orow.push(o);
                j += 1;
            }
            mask.push(mrow);
            out.push(orow);
            proof {
                assert(mask@[i as int] == mrow);
                assert(out@[i as int] == orow);
            }
            i += 1;
        }
        let result = Tensor { data: out, grad: None };
        self.mask = Some(Tensor { data: mask, grad: None });
        proof {
            if self.prob == 0 {
                assert(result.view() =~~= mv);
            }
        }
        result
    }

    /// `grad_input = grad_output * mask`, elementwise, from the mask the
    /// latest forward pass cached; without one this is an invalid-state
    /// failure, never a silent zero gradient.
    pub fn backward(&self, grad_output: &Tensor) -> (r: Result<Tensor, NnError>)
        requires
            self.wf(),
            grad_output.wf(),
        ensures
            self.mask_view() is None ==> (r matches Err(e) && e == NnError::InvalidState),
            (match self.mask_view() {
                Some(mk) => !same_shape(grad_output.view(), mk),
                None => false,
            }) ==> (r matches Err(e) && e == NnError::DimensionMismatch),
            (match self.mask_view() {
                Some(mk) => same_shape(grad_output.view(), mk),
                None => false,
            }) ==> (r matches Ok(t) && t.wf() && t.grad_view() is None && t.view()
                == hadamard_spec(grad_output.view(), self.mask_view().unwrap())
                && t.spec_rows() == grad_output.spec_rows() && t.spec_cols()
                == grad_output.spec_cols()),
    {
        match &self.mask {
            None => Err(NnError::InvalidState),
            Some(m) => {
                if grad_output.data.len() != m.data.len() || grad_output.data[0].len()
                    != m.data[0].len() {
                    Err(NnError::DimensionMismatch)
                } else {
                    let g = hadamard(&grad_output.data, &m.data);
                    Ok(Tensor { data: g, grad: None })
                }
            },
        }
    }
}

// ---- The closed variant set ----

/// A transformation stage: one closed set of variants, dispatched by
/// explicit match, stored by value in a model's ordered sequence.
pub enum Layer {
    Dense(Dense),
    ReLU(ReLU),
    Sigmoid(Sigmoid),
    Tanh(Tanh),
    Softmax(Softmax),
    Dropout(Dropout),
}

impl Layer {
    pub open spec fn wf(&self) -> bool {
        match self {
            Layer::Dense(d) => d.wf(),
            Layer::Dropout(dr) => dr.wf(),
            _ => true,
        }
    }

    /// Only dropout draws from the random source; every other stage is a
    /// function of its input and parameters.
    pub open spec fn is_stochastic(&self) -> bool {
        self is Dropout
    }

    /// Whether a forward pass accepts an input of this shape.
    pub open spec fn fwd_ok(&self, x: Seq<Seq<i64>>) -> bool {
        match self {
            Layer::Dense(d) => d.accepts(x),
            _ => true,
        }
    }

    /// The column count a forward pass produces from `c` input columns.
    pub open spec fn fwd_cols(&self, c: int) -> int {
        match self {
            Layer::Dense(d) => d.out_dim(),
            _ => c,
        }
    }

    /// The output of a deterministic stage's forward pass; meaningful for
    /// every variant but dropout.
    pub open spec fn det_fwd(&self, x: Seq<Seq<i64>>) -> Seq<Seq<i64>> {
        match self {
            Layer::Dense(d) => dense_fwd_spec(x, d.weights.view(), d.bias.view()),
            Layer::ReLU(_) => relu_fwd_spec(x),
            Layer::Sigmoid(_) => sigmoid_fwd_spec(x),
            Layer::Tanh(_) => tanh_fwd_spec(x),
            Layer::Softmax(_) => softmax_fwd_spec(x),
            Layer::Dropout(_) => x,
        }
    }

    /// What one forward pass guarantees: a deterministic stage leaves the
    /// layer unchanged and returns its specified output; dropout obeys
    /// its own relation, whatever was drawn.
    pub open spec fn fwd_rel(pre: Layer, post: Layer, x: Seq<Seq<i64>>, y: Seq<Seq<i64>>) -> bool {
        match pre {
            Layer::Dropout(dr) => match post {
                Layer::Dropout(dr2) => dropout_fwd_rel(dr, dr2, x, y),
                _ => false,
            },
            _ => post == pre && y == pre.det_fwd(x),
        }
    }

    /// Whether a backward pass with this forward input and output
    /// gradient is well shaped (for dropout: a mask of the gradient's
    /// shape has been recorded).
    pub open spec fn bwd_ok(&self, x: Seq<Seq<i64>>, g: Seq<Seq<i64>>) -> bool {
        match self {
            Layer::Dense(d) => d.accepts_bwd(x, g),
            Layer::Dropout(dr) => match dr.mask_view() {
                Some(mk) => same_shape(g, mk),
                None => false,
            },
            _ => same_shape(x, g),
        }
    }

    /// The error a misshapen or invalid backward pass reports.
    pub open spec fn bwd_err(&self) -> NnError {
        match self {
            Layer::Dropout(dr) => if dr.mask_view() is None {
                NnError::InvalidState
            } else {
                NnError::DimensionMismatch
            },
            _ => NnError::DimensionMismatch,
        }
    }

    /// The input gradient a backward pass returns.
    pub open spec fn bwd_grad(&self, x: Seq<Seq<i64>>, g: Seq<Seq<i64>>) -> Seq<Seq<i64>> {
        match self {
            Layer::Dense(d) => mm_spec(g, transpose_spec(d.weights.view())),
            Layer::ReLU(_) => relu_bwd_spec(x, g),
            Layer::Sigmoid(_) => sigmoid_bwd_spec(x, g),
            Layer::Tanh(_) => tanh_bwd_spec(x, g),
            Layer::Softmax(_) => softmax_bwd_spec(x, g),
            Layer::Dropout(dr) => match dr.mask_view() {
                Some(mk) => hadamard_spec(g, mk),
                None => g,
            },
        }
    }

    /// How a backward pass changes the layer: a dense stage records its
    /// parameter gradients, every other stage is unchanged.
    pub open spec fn bwd_rel(pre: Layer, post: Layer, x: Seq<Seq<i64>>, g: Seq<Seq<i64>>) -> bool {
        match pre {
            Layer::Dense(d) => match post {
                Layer::Dense(d2) => {
                    &&& d2.weights.view() == d.weights.view()
                    &&& d2.bias.view() == d.bias.view()
                    &&& d2.weights.grad_view() == Some(mm_spec(transpose_spec(x), g))
                    &&& d2.bias.grad_view() == Some(col_sums_spec(g))
                },
                _ => false,
            },
            _ => post == pre,
        }
    }

    /// How a parameter update changes the layer: a dense stage with a
    /// recorded gradient steps against it and keeps the gradient; every
    /// other stage, and a dense stage without one, is unchanged.
    pub open spec fn upd_rel(pre: Layer, post: Layer, lr: i64) -> bool {
        match pre {
            Layer::Dense(d) => match post {
                Layer::Dense(d2) => {
                    &&& d2.weights.grad_view() == d.weights.grad_view()
                    &&& d2.bias.grad_view() == d.bias.grad_view()
                    &&& d2.weights.view() == (match d.weights.grad_view() {
                        Some(g) => sgd_spec(d.weights.view(), g, lr),
                        None => d.weights.view(),
                    })
                    &&& d2.bias.view() == (match d.bias.grad_view() {
                        Some(g) => sgd_spec(d.bias.view(), g, lr),
                        None => d.bias.view(),
                    })
                },
                _ => false,
            },
            _ => post == pre,
        }
    }

    /// Forward dispatch over the closed variant set.
    pub fn forward(&mut self, input: &Tensor, rng: &mut RngSource) -> (r: Result<Tensor, NnError>)
        requires
            old(self).wf(),
            input.wf(),
        ensures
            final(self).wf(),
            old(self).fwd_ok(input.view()) ==> (r matches Ok(t) && t.wf() && t.grad_view() is None
                && t.spec_rows() == input.spec_rows() && t.spec_cols() == old(self).fwd_cols(
                input.spec_cols()) && Layer::fwd_rel(*old(self), *final(self), input.view(),
                t.view())),
            !old(self).fwd_ok(input.view()) ==> (r matches Err(e) && e
                == NnError::DimensionMismatch && *final(self) == *old(self)),
    {
        match self {
            Layer::Dense(d) => d.forward(input),
            Layer::ReLU(l) => Ok(l.forward(input)),
            Layer::Sigmoid(l) => Ok(l.forward(input)),
            Layer::Tanh(l) => Ok(l.forward(input)),
            Layer::Softmax(l) => Ok(l.forward(input)),
            Layer::Dropout(dr) => Ok(dr.forward(input, rng)),
        }
    }

    /// Backward dispatch over the closed variant set. `input` must be the
    /// tensor that was passed into the matching forward call.
    pub fn backward(&mut self, input: &Tensor, grad_output: &Tensor) -> (r: Result<
        Tensor,
        NnError,
    >)
        requires
            old(self).wf(),
            input.wf(),
            grad_output.wf(),
        ensures
            final(self).wf(),
            old(self).bwd_ok(input.view(), grad_output.view()) ==> (r matches Ok(t) && t.wf()
                && t.grad_view() is None && t.view() == old(self).bwd_grad(input.view(),
                grad_output.view()) && Layer::bwd_rel(*old(self), *final(self), input.view(),
                grad_output.view())),
            !old(self).bwd_ok(input.view(), grad_output.view()) ==> (r matches Err(e) && e == old(
                self).bwd_err() && *final(self) == *old(self)),
    {
        match self {
            Layer::Dense(d) => d.backward(input, grad_output),
            Layer::ReLU(l) => l.backward(input, grad_output),
            Layer::Sigmoid(l) => l.backward(input, grad_output),
            Layer::Tanh(l) => l.backward(input, grad_output),
            Layer::Softmax(l) => l.backward(input, grad_output),
            Layer::Dropout(dr) => dr.backward(grad_output),
        }
    }

    /// Update dispatch: a no-op for every stage without parameters.
    pub fn update_parameters(&mut self, learning_rate: i64)
        requires
            old(self).wf(),
        ensures
            final(self).wf(),
            Layer::upd_rel(*old(self), *final(self), learning_rate),
    {
        match self {
            Layer::Dense(d) => d.update_parameters(learning_rate),
            _ => (),
        }
    }
}

// ---- Laws ----

/// Determinism of the stateless stages: a layer that is not dropout is
/// left unchanged by a forward pass, and two forward passes on the same
/// input yield the same output, bit for bit.
pub proof fn lemma_stateless_forward_deterministic(l: Layer, l1: Layer, l2: Layer, x: Seq<
    Seq<i64>,
>, y1: Seq<Seq<i64>>, y2: Seq<Seq<i64>>)
    requires
        !l.is_stochastic(),
        Layer::fwd_rel(l, l1, x, y1),
        Layer::fwd_rel(l, l2, x, y2),
    ensures
        y1 == y2,
        l1 == l,
        l2 == l,
{
}

proof fn lemma_row_max_shift(a: Seq<i64>, b: Seq<i64>, c: int, k: nat)
    requires
        1 <= k <= a.len(),
        b.len() == a.len(),
        forall|j: int| 0 <= j < a.len() ==> #[trigger] b[j] == a[j] + c,
    ensures
        row_max_upto(b, k) == row_max_upto(a, k) + c,
    decreases k,
{
    if k > 1 {
        lemma_row_max_shift(a, b, c, (k - 1) as nat);
    }
}

/// Shifting every entry of a row by one additive constant (without
/// leaving the value range) leaves its softmax unchanged: the row
/// maximum shifts along, so the shifted differences are identical.
pub proof fn lemma_softmax_shift_invariant(a: Seq<i64>, b: Seq<i64>, c: int)
    requires
        a.len() > 0,
        b.len() == a.len(),
        forall|j: int| 0 <= j < a.len() ==> #[trigger] b[j] == a[j] + c,
    ensures
        softmax_row_spec(b) == softmax_row_spec(a),
{
    lemma_row_max_shift(a, b, c, a.len());
    assert(softmax_exps(b) =~= softmax_exps(a)) by {
        assert(forall|j: int| 0 <= j < a.len() ==> #[trigger] softmax_exps(b)[j] == spec_exp(
            spec_sub(b[j], row_max(b))));
        assert(forall|j: int| 0 <= j < a.len() ==> spec_sub(b[j], row_max(b)) == spec_sub(
            #[trigger] a[j], row_max(a)));
    };
    assert(softmax_row_spec(b) =~= softmax_row_spec(a));
}

/// The exact (unsaturated) integer sum of the first `k` entries.
pub open spec fn int_sum(e: Seq<i64>, k: nat) -> int
    decreases k,
{
    if k == 0 {
        0
    } else {
        int_sum(e, (k - 1) as nat) + e[k - 1]
    }
}

proof fn lemma_int_sum_bounds(e: Seq<i64>, k: nat)
    requires
        k <= e.len(),
        forall|j: int| 0 <= j < e.len() ==> #[trigger] e[j] >= 0,
    ensures
        int_sum(e, k) >= 0,
        forall|j: int| 0 <= j < k ==> #[trigger] e[j] <= int_sum(e, k),
    decreases k,
{
    if k > 0 {
        lemma_int_sum_bounds(e, (k - 1) as nat);
    }
}

proof fn lemma_row_sum_parts(r: Seq<i64>, s: i64, k: nat)
    requires
        0 < r.len(),
        k <= r.len(),
        s > 0,
        s as int == int_sum(softmax_exps(r), r.len()),
        sum_upto(softmax_exps(r), r.len()) == s,
    ensures
        int_sum(softmax_row_spec(r), k) >= 0,
        0 <= FX_ONE * int_sum(softmax_exps(r), k) - s * int_sum(softmax_row_spec(r), k) <= k * (
        s - 1),
    decreases k,
{
    let e = softmax_exps(r);
    let srs = softmax_row_spec(r);
    assert forall|t: int| 0 <= t < e.len() implies #[trigger] e[t] >= 0 by {
        lemma_spec_exp_nonneg(spec_sub(r[t], row_max(r)));
    };
    if k > 0 {
        lemma_row_sum_parts(r, s, (k - 1) as nat);
        let j = k - 1;
        lemma_int_sum_bounds(e, e.len());
        assert(e[j as int] <= s);
        let p = e[j as int] * (FX_ONE as int);
        lemma_fundamental_div_mod(p, s as int);
        lemma_div_pos_is_pos(p, s as int);
        lemma_mod_bound(p, s as int);
        let q = p / (s as int);
        let rem = p % (s as int);
        assert(p <= (s as int) * (FX_ONE as int)) by {
            lemma_mul_inequality(e[j as int] as int, s as int, FX_ONE as int);
        };
        assert(q <= FX_ONE) by {
            lemma_div_multiples_vanish(FX_ONE as int, s as int);
            lemma_div_is_ordered(p, (s as int) * (FX_ONE as int), s as int);
        };
        assert(srs[j as int] == q);
        assert(int_sum(srs, k) == int_sum(srs, (k - 1) as nat) + q);
        assert(int_sum(e, k) == int_sum(e, (k - 1) as nat) + e[j as int]);
        lemma_mul_is_distributive_add(s as int, int_sum(srs, (k - 1) as nat), q);
        assert((s as int) * q == p - rem);
        assert(k * (s - 1) == (k - 1) * (s - 1) + (s - 1)) by (nonlinear_arith);
    }
}

/// Row-stochasticity of the softmax: as long as the exponentials' sum
/// does not saturate and is positive, the entries of one softmax output
/// row add up to one, short by less than one smallest representable
/// unit per entry (each division truncates at most one unit).
pub proof fn lemma_softmax_row_stochastic(r: Seq<i64>)
    requires
        0 < r.len(),
        sum_upto(softmax_exps(r), r.len()) > 0,
        sum_upto(softmax_exps(r), r.len()) as int == int_sum(softmax_exps(r), r.len()),
    ensures
        FX_ONE - r.len() < int_sum(softmax_row_spec(r), r.len()) <= FX_ONE,
{
    let n = r.len();
    let s = sum_upto(softmax_exps(r), n);
    lemma_row_sum_parts(r, s, n);
    let total = int_sum(softmax_row_spec(r), n);
    let gap = FX_ONE * int_sum(softmax_exps(r), n) - (s as int) * total;
    assert(gap == (s as int) * (FX_ONE - total)) by (nonlinear_arith)
        requires
            gap == FX_ONE * (s as int) - (s as int) * total,
    ;
    assert(0 <= FX_ONE - total < n) by (nonlinear_arith)
        requires
            0 <= (s as int) * (FX_ONE - total) <= n * (s as int - 1),
            s >= 1,
            n >= 1,
    ;
}

} // verus!
