use deep_learning::fx::{fx_exp, fx_ln, FX_ONE};
use deep_learning::layer::{Dense, ReLU, Sigmoid, Softmax, Tanh};
use deep_learning::loss::{binary_cross_entropy_loss, hinge_loss, mse_loss};
use deep_learning::rng::RngSource;
use deep_learning::tensor::Tensor;
use deep_learning::NnError;

fn fx(x: f64) -> i64 {
    (x * (FX_ONE as f64)).round() as i64
}

fn to_f(v: i64) -> f64 {
    (v as f64) / (FX_ONE as f64)
}

fn tensor(rows: Vec<Vec<f64>>) -> Tensor {
    let data: Vec<Vec<i64>> = rows
        .iter()
        .map(|r| r.iter().map(|&x| fx(x)).collect())
        .collect();
    Tensor::new(data).unwrap()
}

fn matrix(rows: Vec<Vec<f64>>) -> Vec<Vec<i64>> {
    rows.iter()
        .map(|r| r.iter().map(|&x| fx(x)).collect())
        .collect()
}

#[test]
fn tensor_new_rejects_ragged_and_empty() {
    assert_eq!(
        Tensor::new(vec![]).unwrap_err(),
        NnError::DimensionMismatch
    );
    assert_eq!(
        Tensor::new(vec![vec![]]).unwrap_err(),
        NnError::DimensionMismatch
    );
    assert_eq!(
        Tensor::new(vec![vec![1, 2], vec![3]]).unwrap_err(),
        NnError::DimensionMismatch
    );
    let t = Tensor::new(vec![vec![1, 2], vec![3, 4]]).unwrap();
    assert_eq!(t.shape(), (2, 2));
}

#[test]
fn tensor_zeros_and_random() {
    let z = Tensor::zeros(2, 3).unwrap();
    assert_eq!(z.shape(), (2, 3));
    for row in &z.data {
        for &v in row {
            assert_eq!(v, 0);
        }
    }
    assert_eq!(Tensor::zeros(0, 3).unwrap_err(), NnError::DimensionMismatch);

    let mut rng = RngSource::new(7);
    let r = Tensor::random(4, 5, &mut rng).unwrap();
    assert_eq!(r.shape(), (4, 5));
    for row in &r.data {
        for &v in row {
            assert!(0 <= v && v < FX_ONE);
        }
    }
}

#[test]
fn exp_and_ln_match_reference_values() {
    assert_eq!(fx_exp(0), FX_ONE);
    assert!((to_f(fx_exp(FX_ONE)) - 1.0f64.exp()).abs() < 1e-4);
    assert!((to_f(fx_exp(fx(-1.0))) - (-1.0f64).exp()).abs() < 1e-4);
    assert!((to_f(fx_exp(fx(2.5))) - 2.5f64.exp()).abs() < 1e-3);
    assert!((to_f(fx_ln(fx(0.5))) - 0.5f64.ln()).abs() < 1e-4);
    assert!((to_f(fx_ln(fx(0.1))) - 0.1f64.ln()).abs() < 1e-4);
    assert_eq!(fx_ln(FX_ONE), 0);
}

#[test]
fn stateless_forward_is_deterministic() {
    let input = tensor(vec![vec![0.5, -1.2, 3.8], vec![1.0, 0.0, -2.0]]);
    let relu = ReLU::new();
    let sig = Sigmoid::new();
    let tanh = Tanh::new();
    let soft = Softmax::new();
    assert_eq!(relu.forward(&input).data, relu.forward(&input).data);
    assert_eq!(sig.forward(&input).data, sig.forward(&input).data);
    assert_eq!(tanh.forward(&input).data, tanh.forward(&input).data);
    assert_eq!(soft.forward(&input).data, soft.forward(&input).data);

    let mut rng = RngSource::new(3);
    let dense = Dense::new(3, 2, &mut rng).unwrap();
    assert_eq!(
        dense.forward(&input).unwrap().data,
        dense.forward(&input).unwrap().data
    );
}

#[test]
fn relu_forward_and_backward_formulas() {
    let input = tensor(vec![vec![-1.0, 0.0, 2.0]]);
    let relu = ReLU::new();
    let out = relu.forward(&input);
    assert_eq!(out.data, matrix(vec![vec![0.0, 0.0, 2.0]]));
    let g = tensor(vec![vec![3.0, 5.0, 7.0]]);
    let back = relu.backward(&input, &g).unwrap();
    // The gradient at exactly zero is zero (the indicator is strict).
    assert_eq!(back.data, matrix(vec![vec![0.0, 0.0, 7.0]]));
}

#[test]
fn backward_shape_mismatch_is_an_error() {
    let input = tensor(vec![vec![1.0, 2.0]]);
    let g = tensor(vec![vec![1.0, 2.0, 3.0]]);
    assert_eq!(
        ReLU::new().backward(&input, &g).unwrap_err(),
        NnError::DimensionMismatch
    );
    assert_eq!(
        Sigmoid::new().backward(&input, &g).unwrap_err(),
        NnError::DimensionMismatch
    );
    let mut rng = RngSource::new(1);
    let dense = Dense::new(3, 2, &mut rng).unwrap();
    assert_eq!(
        dense.forward(&input).unwrap_err(),
        NnError::DimensionMismatch
    );
}

fn central_diff_tolerance() -> f64 {
    2e-3
}

#[test]
fn gradient_matches_finite_difference_sigmoid_tanh() {
    let h: f64 = 0.01;
    let mut rng = RngSource::new(11);
    let probe = Tensor::random(1, 6, &mut rng).unwrap();
    for j in 0..6usize {
        let x = to_f(probe.data[0][j]) * 2.0 - 1.0;
        for which in 0..2usize {
            let fwd = |v: f64| -> f64 {
                let t = tensor(vec![vec![v]]);
                let out = if which == 0 {
                    Sigmoid::new().forward(&t)
                } else {
                    Tanh::new().forward(&t)
                };
                to_f(out.data[0][0])
            };
            let numeric = (fwd(x + h) - fwd(x - h)) / (2.0 * h);
            let t = tensor(vec![vec![x]]);
            let g = tensor(vec![vec![1.0]]);
            let analytic = if which == 0 {
                to_f(Sigmoid::new().backward(&t, &g).unwrap().data[0][0])
            } else {
                to_f(Tanh::new().backward(&t, &g).unwrap().data[0][0])
            };
            assert!(
                (numeric - analytic).abs() < central_diff_tolerance(),
                "numeric {} analytic {}",
                numeric,
                analytic
            );
        }
    }
}

#[test]
fn gradient_matches_finite_difference_relu_dense_softmax() {
    let h: f64 = 0.01;
    // ReLU away from the kink.
    for &x in &[0.7f64, -0.9f64] {
        let fwd = |v: f64| to_f(ReLU::new().forward(&tensor(vec![vec![v]])).data[0][0]);
        let numeric = (fwd(x + h) - fwd(x - h)) / (2.0 * h);
        let analytic = to_f(
            ReLU::new()
                .backward(&tensor(vec![vec![x]]), &tensor(vec![vec![1.0]]))
                .unwrap()
                .data[0][0],
        );
        assert!((numeric - analytic).abs() < central_diff_tolerance());
    }
    // Dense with fixed parameters: d(output)/d(input) is the weight.
    let dense = Dense {
        weights: tensor(vec![vec![0.37]]),
        bias: tensor(vec![vec![0.11]]),
    };
    let x = 0.42f64;
    let fwd = |v: f64| to_f(dense.forward(&tensor(vec![vec![v]])).unwrap().data[0][0]);
    let numeric = (fwd(x + h) - fwd(x - h)) / (2.0 * h);
    let mut d2 = Dense {
        weights: tensor(vec![vec![0.37]]),
        bias: tensor(vec![vec![0.11]]),
    };
    let analytic = to_f(
        d2.backward(&tensor(vec![vec![x]]), &tensor(vec![vec![1.0]]))
            .unwrap()
            .data[0][0],
    );
    assert!((numeric - analytic).abs() < central_diff_tolerance());
    // Softmax: derivative of the first output with respect to the first
    // input of a two-wide row.
    let (a, b) = (0.3f64, -0.2f64);
    let fwd = |v: f64| to_f(Softmax::new().forward(&tensor(vec![vec![v, b]])).data[0][0]);
    let numeric = (fwd(a + h) - fwd(a - h)) / (2.0 * h);
    let analytic = to_f(
        Softmax::new()
            .backward(&tensor(vec![vec![a, b]]), &tensor(vec![vec![1.0, 0.0]]))
            .unwrap()
            .data[0][0],
    );
    assert!((numeric - analytic).abs() < central_diff_tolerance());
}

#[test]
fn softmax_rows_sum_to_one_and_shift_is_invariant() {
    let input = tensor(vec![vec![0.5, -1.2, 3.8], vec![1.0, 0.0, -2.0]]);
    let soft = Softmax::new();
    let out = soft.forward(&input);
    for row in &out.data {
        let sum: i64 = row.iter().sum();
        // Each of the 3 entries truncates at most one unit from the sum.
        assert!((sum - FX_ONE).abs() <= 3, "row sum {}", sum);
    }
    // An exact additive shift of a row leaves its softmax unchanged.
    let shifted = tensor(vec![vec![0.5 + 2.0, -1.2 + 2.0, 3.8 + 2.0], vec![
        1.0 - 3.0,
        0.0 - 3.0,
        -2.0 - 3.0,
    ]]);
    let out2 = soft.forward(&shifted);
    assert_eq!(out.data, out2.data);
}

#[test]
fn mse_loss_exact_value_and_gradient() {
    let output = tensor(vec![vec![1.0, 0.0]]);
    let target = matrix(vec![vec![0.0, 1.0]]);
    let (loss, grad) = mse_loss(&output, &target).unwrap();
    // 0.5 * (1^2 + 1^2) == 1.
    assert_eq!(loss, FX_ONE);
    assert_eq!(grad, matrix(vec![vec![1.0, -1.0]]));
}

#[test]
fn hinge_loss_exact_value_and_gradient() {
    let output = tensor(vec![vec![0.5, 2.0]]);
    let target = matrix(vec![vec![1.0, 1.0]]);
    let (loss, grad) = hinge_loss(&output, &target).unwrap();
    // Margins are 0.5 and -1: only the first contributes.
    assert_eq!(loss, fx(0.5));
    assert_eq!(grad, matrix(vec![vec![-1.0, 0.0]]));
}

#[test]
fn binary_cross_entropy_matches_reference() {
    let output = tensor(vec![vec![0.8, 0.3]]);
    let target = matrix(vec![vec![1.0, 0.0]]);
    let (loss, grad) = binary_cross_entropy_loss(&output, &target).unwrap();
    let expected = -(0.8f64.ln() + 0.7f64.ln());
    assert!((to_f(loss) - expected).abs() < 1e-3, "loss {}", to_f(loss));
    assert_eq!(grad, matrix(vec![vec![0.8 - 1.0, 0.3]]));
}

#[test]
fn binary_cross_entropy_clamps_extremes() {
    // Predictions at exactly 0 and 1 are clamped, so the loss is finite.
    let output = tensor(vec![vec![0.0, 1.0]]);
    let target = matrix(vec![vec![1.0, 0.0]]);
    let (loss, _grad) = binary_cross_entropy_loss(&output, &target).unwrap();
    assert!(loss > 0);
}

#[test]
fn loss_shape_mismatch_is_an_error() {
    let output = tensor(vec![vec![1.0, 0.0]]);
    let bad = matrix(vec![vec![0.0]]);
    assert_eq!(
        mse_loss(&output, &bad).unwrap_err(),
        NnError::DimensionMismatch
    );
    assert_eq!(
        hinge_loss(&output, &bad).unwrap_err(),
        NnError::DimensionMismatch
    );
    assert_eq!(
        binary_cross_entropy_loss(&output, &bad).unwrap_err(),
        NnError::DimensionMismatch
    );
}

#[test]
fn loss_decreases_along_gradient_direction() {
    // Step by one hundredth of the gradient.
    // Mean-squared error.
    let output = tensor(vec![vec![0.5, 0.3]]);
    let target = matrix(vec![vec![0.2, 0.7]]);
    let (l0, grad) = mse_loss(&output, &target).unwrap();
    let stepped: Vec<Vec<i64>> = vec![vec![
        output.data[0][0] - grad[0][0] / 100,
        output.data[0][1] - grad[0][1] / 100,
    ]];
    let (l1, _) = mse_loss(&Tensor::new(stepped).unwrap(), &target).unwrap();
    assert!(l1 < l0, "mse {} -> {}", l0, l1);
    // Hinge.
    let output = tensor(vec![vec![0.5]]);
    let target = matrix(vec![vec![1.0]]);
    let (h0, hgrad) = hinge_loss(&output, &target).unwrap();
    let stepped: Vec<Vec<i64>> = vec![vec![output.data[0][0] - hgrad[0][0] / 100]];
    let (h1, _) = hinge_loss(&Tensor::new(stepped).unwrap(), &target).unwrap();
    assert!(h1 < h0, "hinge {} -> {}", h0, h1);
}

#[test]
fn dense_update_without_gradient_is_a_no_op() {
    let mut rng = RngSource::new(5);
    let mut dense = Dense::new(2, 2, &mut rng).unwrap();
    let before = dense.weights.data.clone();
    dense.update_parameters(fx(0.1));
    assert_eq!(dense.weights.data, before);
}
