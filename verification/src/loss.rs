//! Loss functions: stateless pure maps from (output, target) to a scalar
//! loss and a gradient matrix of the output's shape.

use vstd::prelude::*;
use crate::fx::{
    spec_add, spec_sub, spec_mul, spec_neg, spec_ln, fx_add, fx_sub, fx_mul, fx_neg, fx_ln,
    FX_ONE, FX_HALF,
};
use crate::layer::same_shape;
use crate::tensor::{Tensor, wf_mat, rows_of, cols_of};
use crate::{view_of, lemma_view_of_index, NnError};

verus! {

broadcast use lemma_view_of_index;

/// Output and target agree in shape (which makes the target a well-formed
/// matrix too).
pub open spec fn loss_shapes_ok(o: Seq<Seq<i64>>, t: Seq<Seq<i64>>) -> bool {
    wf_mat(t) && same_shape(o, t)
}

/// The elementwise difference `output - target`: the gradient of the
/// mean-squared-error and binary-cross-entropy losses.
pub open spec fn diff_spec(o: Seq<Seq<i64>>, t: Seq<Seq<i64>>) -> Seq<Seq<i64>> {
    Seq::new(o.len(), |i: int| Seq::new(o[0].len(), |j: int| spec_sub(o[i][j], t[i][j])))
}

/// One row of a loss fold: the running total `acc` with the first `k`
/// per-entry terms of this row added in order.
pub open spec fn fold_row(acc: i64, o: Seq<i64>, t: Seq<i64>, k: nat, which: LossKind) -> i64
    decreases k,
{
    if k == 0 {
        acc
    } else {
        spec_add(fold_row(acc, o, t, (k - 1) as nat, which), loss_term(which, o[k - 1], t[k - 1]))
    }
}

/// The running total after the first `i` rows, each folded in order.
pub open spec fn fold_mat(o: Seq<Seq<i64>>, t: Seq<Seq<i64>>, i: nat, which: LossKind) -> i64
    decreases i,
{
    if i == 0 {
        0
    } else {
        fold_row(fold_mat(o, t, (i - 1) as nat, which), o[i - 1], t[i - 1], o[i - 1].len(), which)
    }
}

/// Predictions clamped away from 0 and 1 by the smallest representable
/// positive value, for the logarithms' numerical stability.
pub open spec fn clamp_prob(x: i64) -> i64 {
    if x < 1 {
        1
    } else if x > FX_ONE - 1 {
        (FX_ONE - 1) as i64
    } else {
        x
    }
}

/// The per-entry term each loss sums.
pub open spec fn loss_term(which: LossKind, o: i64, t: i64) -> i64 {
    match which {
        LossKind::MeanSquaredError => spec_mul(spec_sub(o, t), spec_sub(o, t)),
        LossKind::BinaryCrossEntropy => spec_add(spec_mul(t, spec_ln(clamp_prob(o))), spec_mul(
            spec_sub(FX_ONE, t), spec_ln(spec_sub(FX_ONE, clamp_prob(o))))),
        LossKind::Hinge => if spec_sub(FX_ONE, spec_mul(t, o)) > 0 {
            spec_sub(FX_ONE, spec_mul(t, o))
        } else {
            0
        },
    }
}

/// The scalar each loss reports, from its fold over all entries in
/// row-major order.
pub open spec fn loss_value_spec(which: LossKind, o: Seq<Seq<i64>>, t: Seq<Seq<i64>>) -> i64 {
    let total = fold_mat(o, t, o.len(), which);
    match which {
        LossKind::MeanSquaredError => spec_mul(FX_HALF, total),
        LossKind::BinaryCrossEntropy => spec_neg(total),
        LossKind::Hinge => total,
    }
}

/// The hinge gradient: `-target` where the margin is strictly positive,
/// else zero.
pub open spec fn hinge_grad_val(o: i64, t: i64) -> i64 {
    if spec_sub(FX_ONE, spec_mul(t, o)) > 0 {
        spec_neg(t)
    } else {
        0
    }
}

/// The gradient matrix each loss reports.
pub open spec fn loss_grad_spec(which: LossKind, o: Seq<Seq<i64>>, t: Seq<Seq<i64>>) -> Seq<
    Seq<i64>,
> {
    match which {
        LossKind::Hinge => Seq::new(o.len(), |i: int| Seq::new(o[0].len(), |j: int|
            hinge_grad_val(o[i][j], t[i][j]))),
        _ => diff_spec(o, t),
    }
}

/// Which loss a model is configured with: one closed set of variants,
/// each a single function returning both the scalar loss and the
/// output-space gradient.
#[derive(Clone, Copy, PartialEq, Eq, Structural, Debug)]
pub enum LossKind {
    MeanSquaredError,
    BinaryCrossEntropy,
    Hinge,
}

/// Whether the target matches the output's shape, row by row.
fn check_same_shape(o: &Vec<Vec<i64>>, t: &Vec<Vec<i64>>) -> (r: bool)
    requires
        wf_mat(view_of(o@)),
    ensures
        r == loss_shapes_ok(view_of(o@), view_of(t@)),
{
    let rows: usize = o.len();
    let cols: usize = o[0].len();
    if t.len() != rows {
        return false;
    }
    let mut i: usize = 0;
    while i < rows
        invariant
            0 <= i <= rows,
            rows == view_of(o@).len(),
            cols == cols_of(view_of(o@)),
            wf_mat(view_of(o@)),
            t@.len() == rows,
            forall|k: int| 0 <= k < i ==> (#[trigger] t@[k])@.len() == cols,
        decreases rows - i,
    {
        if t[i].len() != cols {
            assert(!wf_mat(view_of(t@)) || !same_shape(view_of(o@), view_of(t@)));
            return false;
        }
        i += 1;
    }
    true
}

/// The fold of the chosen per-entry loss term over all entries.
fn loss_total(which: LossKind, o: &Vec<Vec<i64>>, t: &Vec<Vec<i64>>) -> (r: i64)
    requires
        wf_mat(view_of(o@)),
        loss_shapes_ok(view_of(o@), view_of(t@)),
    ensures
        r == fold_mat(view_of(o@), view_of(t@), view_of(o@).len(), which),
{
    let ghost ov = view_of(o@);
    let ghost tv = view_of(t@);
    let rows: usize = o.len();
    let cols: usize = o[0].len();
    let mut total: i64 = 0;
    let mut i: usize = 0;
    while i < rows
        invariant
            0 <= i <= rows,
            rows == ov.len(),
            cols == cols_of(ov),
            wf_mat(ov),
            loss_shapes_ok(ov, tv),
            ov == view_of(o@),
            tv == view_of(t@),
            total == fold_mat(ov, tv, i as nat, which),
        decreases rows - i,
    {
        let mut j: usize = 0;
        while j < cols
            invariant
                0 <= j <= cols,
                0 <= i < rows,
                rows == ov.len(),
                cols == cols_of(ov),
                wf_mat(ov),
                loss_shapes_ok(ov, tv),
                ov == view_of(o@),
                tv == view_of(t@),
                total == fold_row(fold_mat(ov, tv, i as nat, which), ov[i as int], tv[i as int],
                    j as nat, which),
            decreases cols - j,
        {
            let ov_ij: i64 = o[i][j];
            let tv_ij: i64 = t[i][j];
            let term: i64 = match which {
                LossKind::MeanSquaredError => fx_mul(fx_sub(ov_ij, tv_ij), fx_sub(ov_ij, tv_ij)),
                LossKind::BinaryCrossEntropy => {
                    let p: i64 = if ov_ij < 1 {
                        1
                    } else if ov_ij > FX_ONE - 1 {
                        FX_ONE - 1
                    } else {
                        ov_ij
                    };
                    fx_add(fx_mul(tv_ij, fx_ln(p)), fx_mul(fx_sub(FX_ONE, tv_ij), fx_ln(fx_sub(
                        FX_ONE, p))))
                },
                LossKind::Hinge => {
                    let m: i64 = fx_sub(FX_ONE, fx_mul(tv_ij, ov_ij));
                    if m > 0 {
                        m
                    } else {
                        0
                    }
                },
            };
            total = fx_add(total, term);
            j += 1;
        }
        i += 1;
    }
    total
}

/// The gradient matrix of the chosen loss.
fn loss_grad(which: LossKind, o: &Vec<Vec<i64>>, t: &Vec<Vec<i64>>) -> (r: Vec<Vec<i64>>)
    requires
        wf_mat(view_of(o@)),
        loss_shapes_ok(view_of(o@), view_of(t@)),
    ensures
        view_of(r@) == loss_grad_spec(which, view_of(o@), view_of(t@)),
        wf_mat(view_of(r@)),
        rows_of(view_of(r@)) == rows_of(view_of(o@)),
        cols_of(view_of(r@)) == cols_of(view_of(o@)),
{
    let ghost ov = view_of(o@);
    let ghost tv = view_of(t@);
    let rows: usize = o.len();
    let cols: usize = o[0].len();
    let mut out: Vec<Vec<i64>> = Vec::new();
    let mut i: usize = 0;
    while i < rows
        invariant
            0 <= i <= rows,
            out@.len() == i,
            rows == ov.len(),
            cols == cols_of(ov),
            wf_mat(ov),
            loss_shapes_ok(ov, tv),
            ov == view_of(o@),
            tv == view_of(t@),
            forall|k: int| 0 <= k < i ==> (#[trigger] out@[k])@ == loss_grad_spec(which, ov,
                tv)[k],
        decreases rows - i,
    {
        let mut row: Vec<i64> = Vec::new();
        let mut j: usize = 0;
        while j < cols
            invariant
                0 <= j <= cols,
                0 <= i < rows,
                row@.len() == j,
                rows == ov.len(),
                cols == cols_of(ov),
                wf_mat(ov),
                loss_shapes_ok(ov, tv),
                ov == view_of(o@),
                tv == view_of(t@),
                forall|k: int| 0 <= k < j ==> row@[k] == loss_grad_spec(which, ov,
                    tv)[i as int][k],
            decreases cols - j,
        {
            let v: i64 = match which {
                LossKind::Hinge => {
                    let m: i64 = fx_sub(FX_ONE, fx_mul(t[i][j], o[i][j]));
                    if m > 0 {
                        fx_neg(t[i][j])
                    } else {
                        0
                    }
                },
                _ => fx_sub(o[i][j], t[i][j]),
            };
            row.push(v);
            j += 1;
        }
        assert(row@ =~= loss_grad_spec(which, ov, tv)[i as int]);
        out.push(row);
        i += 1;
    }
    assert(view_of(out@) =~= loss_grad_spec(which, ov, tv));
    out
}

impl LossKind {
    /// The chosen loss's scalar and gradient; a shape mismatch between
    /// output and target is an explicit failure.
    pub fn evaluate(&self, output: &Tensor, target: &Vec<Vec<i64>>) -> (r: Result<
        (i64, Vec<Vec<i64>>),
        NnError,
    >)
        requires
            output.wf(),
        ensures
            loss_shapes_ok(output.view(), view_of(target@)) ==> (r matches Ok(p) && p.0
                == loss_value_spec(*self, output.view(), view_of(target@)) && view_of(p.1@)
                == loss_grad_spec(*self, output.view(), view_of(target@)) && wf_mat(view_of(p.1@))
                && same_shape(view_of(p.1@), output.view())),
            !loss_shapes_ok(output.view(), view_of(target@)) ==> (r matches Err(e) && e
                == NnError::DimensionMismatch),
    {
        if !check_same_shape(&output.data, target) {
            return Err(NnError::DimensionMismatch);
        }
        let total: i64 = loss_total(*self, &output.data, target);
        let grad = loss_grad(*self, &output.data, target);
        let value: i64 = match self {
            LossKind::MeanSquaredError => fx_mul(FX_HALF, total),
            LossKind::BinaryCrossEntropy => fx_neg(total),
            LossKind::Hinge => total,
        };
        Ok((value, grad))
    }
}

/// Mean-squared error: `loss = 0.5 * sum((output - target)^2)`,
/// `grad = output - target`.
pub fn mse_loss(output: &Tensor, target: &Vec<Vec<i64>>) -> (r: Result<
    (i64, Vec<Vec<i64>>),
    NnError,
>)
    requires
        output.wf(),
    ensures
        loss_shapes_ok(output.view(), view_of(target@)) ==> (r matches Ok(p) && p.0
            == loss_value_spec(LossKind::MeanSquaredError, output.view(), view_of(target@))
            && view_of(p.1@) == diff_spec(output.view(), view_of(target@))),
        !loss_shapes_ok(output.view(), view_of(target@)) ==> (r matches Err(e) && e
            == NnError::DimensionMismatch),
{
    LossKind::MeanSquaredError.evaluate(output, target)
}

/// Binary cross-entropy with predictions clamped away from 0 and 1:
/// `loss = -sum(t*ln(p) + (1-t)*ln(1-p))`, `grad = output - target` (the
/// closed form that is exact when the final stage is a sigmoid).
pub fn binary_cross_entropy_loss(output: &Tensor, target: &Vec<Vec<i64>>) -> (r: Result<
    (i64, Vec<Vec<i64>>),
    NnError,
>)
    requires
        output.wf(),
    ensures
        loss_shapes_ok(output.view(), view_of(target@)) ==> (r matches Ok(p) && p.0
            == loss_value_spec(LossKind::BinaryCrossEntropy, output.view(), view_of(target@))
            && view_of(p.1@) == diff_spec(output.view(), view_of(target@))),
        !loss_shapes_ok(output.view(), view_of(target@)) ==> (r matches Err(e) && e
            == NnError::DimensionMismatch),
{
    LossKind::BinaryCrossEntropy.evaluate(output, target)
}

/// Hinge: `loss = sum(max(0, 1 - t*o))`; `grad = -target` where that
/// margin is strictly positive, else zero.
pub fn hinge_loss(output: &Tensor, target: &Vec<Vec<i64>>) -> (r: Result<
    (i64, Vec<Vec<i64>>),
    NnError,
>)
    requires
        output.wf(),
    ensures
        loss_shapes_ok(output.view(), view_of(target@)) ==> (r matches Ok(p) && p.0
            == loss_value_spec(LossKind::Hinge, output.view(), view_of(target@)) && view_of(p.1@)
            == loss_grad_spec(LossKind::Hinge, output.view(), view_of(target@))),
        !loss_shapes_ok(output.view(), view_of(target@)) ==> (r matches Err(e) && e
            == NnError::DimensionMismatch),
{
    LossKind::Hinge.evaluate(output, target)
}

} // verus!
