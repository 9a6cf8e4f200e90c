use deep_learning::fx::FX_ONE;
use deep_learning::layer::{Dense, Dropout, Layer, ReLU};
use deep_learning::loss::{mse_loss, LossKind};
use deep_learning::model::Model;
use deep_learning::rng::RngSource;
use deep_learning::tensor::Tensor;
use deep_learning::NnError;

fn fx(x: f64) -> i64 {
    (x * (FX_ONE as f64)).round() as i64
}

fn tensor(rows: Vec<Vec<f64>>) -> Tensor {
    let data: Vec<Vec<i64>> = rows
        .iter()
        .map(|r| r.iter().map(|&x| fx(x)).collect())
        .collect();
    Tensor::new(data).unwrap()
}

fn matrix(rows: Vec<Vec<f64>>) -> Vec<Vec<i64>> {
    rows.iter()
        .map(|r| r.iter().map(|&x| fx(x)).collect())
        .collect()
}

#[test]
fn dropout_probability_zero_is_the_identity() {
    let mut rng = RngSource::new(9);
    let mut drop = Dropout::new(0);
    let input = tensor(vec![vec![0.5, -1.2, 3.8], vec![1.0, 0.0, -2.0]]);
    let out = drop.forward(&input, &mut rng);
    assert_eq!(out.data, input.data);
    let mask = drop.mask.as_ref().unwrap();
    for row in &mask.data {
        for &v in row {
            assert_eq!(v, FX_ONE);
        }
    }
    // Backward through the identity mask passes the gradient unchanged.
    let g = tensor(vec![vec![1.0, 2.0, 3.0], vec![4.0, 5.0, 6.0]]);
    let back = drop.backward(&g).unwrap();
    assert_eq!(back.data, g.data);
}

#[test]
fn dropout_probability_one_drops_everything() {
    let mut rng = RngSource::new(9);
    let mut drop = Dropout::new(FX_ONE);
    let input = tensor(vec![vec![0.5, -1.2], vec![1.0, 7.0]]);
    let out = drop.forward(&input, &mut rng);
    for row in &out.data {
        for &v in row {
            assert_eq!(v, 0);
        }
    }
}

#[test]
fn dropout_backward_without_forward_is_invalid_state() {
    let drop = Dropout::new(fx(0.5));
    let g = tensor(vec![vec![1.0]]);
    assert_eq!(drop.backward(&g).unwrap_err(), NnError::InvalidState);
}

#[test]
fn dropout_mask_scales_kept_entries() {
    let mut rng = RngSource::new(21);
    let mut drop = Dropout::new(fx(0.25));
    let input = tensor(vec![vec![1.0; 16]; 4]);
    let out = drop.forward(&input, &mut rng);
    let scale = FX_ONE * FX_ONE / (FX_ONE - fx(0.25));
    let mask = drop.mask.as_ref().unwrap();
    let mut kept: usize = 0;
    for (orow, mrow) in out.data.iter().zip(mask.data.iter()) {
        for (&o, &m) in orow.iter().zip(mrow.iter()) {
            assert!(m == 0 || m == scale);
            if m == 0 {
                assert_eq!(o, 0);
            } else {
                kept += 1;
            }
        }
    }
    // With keep probability 3/4 over 64 draws, some of each is expected.
    assert!(kept > 0 && kept < 64);
}

#[test]
fn model_backward_without_forward_is_invalid_state() {
    let mut model = Model::new(LossKind::MeanSquaredError);
    model.add_layer(Layer::ReLU(ReLU::new()));
    let target = matrix(vec![vec![1.0]]);
    assert_eq!(
        model.backward(&target, fx(0.001)).unwrap_err(),
        NnError::InvalidState
    );
}

#[test]
fn model_forward_shape_mismatch_is_an_error() {
    let mut rng = RngSource::new(2);
    let mut model = Model::new(LossKind::MeanSquaredError);
    model.add_layer(Layer::Dense(Dense::new(3, 2, &mut rng).unwrap()));
    let input = tensor(vec![vec![1.0, 2.0]]);
    assert_eq!(
        model.forward(&input, &mut rng).unwrap_err(),
        NnError::DimensionMismatch
    );
    // The failed forward leaves no cache behind.
    let target = matrix(vec![vec![0.0, 1.0]]);
    assert_eq!(
        model.backward(&target, fx(0.001)).unwrap_err(),
        NnError::InvalidState
    );
}

#[test]
fn model_backward_target_shape_mismatch_is_an_error() {
    let mut rng = RngSource::new(2);
    let mut model = Model::new(LossKind::MeanSquaredError);
    model.add_layer(Layer::Dense(Dense::new(3, 2, &mut rng).unwrap()));
    let input = tensor(vec![vec![1.0, 2.0, 3.0]]);
    model.forward(&input, &mut rng).unwrap();
    let bad = matrix(vec![vec![0.0, 1.0, 2.0]]);
    assert_eq!(
        model.backward(&bad, fx(0.001)).unwrap_err(),
        NnError::DimensionMismatch
    );
    // The cache survives the rejected target, so a good one still works.
    let good = matrix(vec![vec![0.0, 1.0]]);
    model.backward(&good, fx(0.001)).unwrap();
}

#[test]
fn single_dense_layer_converges_on_mse() {
    let mut rng = RngSource::new(42);
    let mut dense = Dense::new(3, 2, &mut rng).unwrap();
    let input = tensor(vec![vec![1.0, 2.0, 3.0]]);
    let target = matrix(vec![vec![0.0, 1.0]]);
    let lr = fx(0.001);
    let mut losses: Vec<i64> = Vec::new();
    for _ in 0..1000 {
        let out = dense.forward(&input).unwrap();
        let (loss, grad) = mse_loss(&out, &target).unwrap();
        losses.push(loss);
        let g = Tensor::new(grad).unwrap();
        dense.backward(&input, &g).unwrap();
        dense.update_parameters(lr);
    }
    for i in 10..losses.len() - 1 {
        assert!(
            losses[i + 1] <= losses[i],
            "loss rose at {}: {} -> {}",
            i,
            losses[i],
            losses[i + 1]
        );
    }
    let last = *losses.last().unwrap();
    assert!(last <= fx(0.001), "final loss {}", last);
}

#[test]
fn model_matches_manual_layer_chaining() {
    let input = tensor(vec![vec![1.0, 2.0, 3.0]]);
    let target = matrix(vec![vec![0.0, 1.0]]);
    let lr = fx(0.001);

    // The model path and the manual path start from identical
    // parameters: the same seed gives the same draws.
    let mut rng_a = RngSource::new(123);
    let mut model = Model::new(LossKind::MeanSquaredError);
    model.add_layer(Layer::Dense(Dense::new(3, 4, &mut rng_a).unwrap()));
    model.add_layer(Layer::ReLU(ReLU::new()));
    model.add_layer(Layer::Dense(Dense::new(4, 2, &mut rng_a).unwrap()));

    let mut rng_b = RngSource::new(123);
    let mut d1 = Dense::new(3, 4, &mut rng_b).unwrap();
    let relu = ReLU::new();
    let mut d2 = Dense::new(4, 2, &mut rng_b).unwrap();

    let mut model_out: Vec<Vec<i64>> = Vec::new();
    let mut manual_out: Vec<Vec<i64>> = Vec::new();
    for _ in 0..1000 {
        let out = model.forward(&input, &mut rng_a).unwrap();
        model_out = out.data.clone();
        model.backward(&target, lr).unwrap();

        let x1 = d1.forward(&input).unwrap();
        let x2 = relu.forward(&x1);
        let x3 = d2.forward(&x2).unwrap();
        manual_out = x3.data.clone();
        let (_, grad) = mse_loss(&x3, &target).unwrap();
        let g3 = Tensor::new(grad).unwrap();
        let g2 = d2.backward(&x2, &g3).unwrap();
        d2.update_parameters(lr);
        let g1 = relu.backward(&x1, &g2).unwrap();
        let _g0 = d1.backward(&input, &g1).unwrap();
        d1.update_parameters(lr);

        assert_eq!(model_out, manual_out);
    }
    assert_eq!(model_out, manual_out);
    // And the trained network fits the target closely.
    let (final_loss, _) = mse_loss(&Tensor::new(model_out).unwrap(), &target).unwrap();
    assert!(final_loss <= fx(0.001), "final loss {}", final_loss);
}

#[test]
fn model_with_dropout_trains_without_failure() {
    let mut rng = RngSource::new(77);
    let mut model = Model::new(LossKind::BinaryCrossEntropy);
    model.add_layer(Layer::Dense(Dense::new(3, 10, &mut rng).unwrap()));
    model.add_layer(Layer::Dropout(Dropout::new(fx(0.15))));
    model.add_layer(Layer::ReLU(ReLU::new()));
    model.add_layer(Layer::Dense(Dense::new(10, 5, &mut rng).unwrap()));
    model.add_layer(Layer::Dropout(Dropout::new(fx(0.15))));
    model.add_layer(Layer::ReLU(ReLU::new()));
    model.add_layer(Layer::Dense(Dense::new(5, 2, &mut rng).unwrap()));
    let input = tensor(vec![
        vec![0.5, -1.2, 3.8],
        vec![1.0, 0.0, -2.0],
        vec![2.2, -0.5, 1.5],
    ]);
    let target = matrix(vec![vec![1.0, 0.5], vec![0.0, 1.0], vec![0.8, 0.3]]);
    for _ in 0..50 {
        let out = model.forward(&input, &mut rng).unwrap();
        assert_eq!(out.shape(), (3, 2));
        model.backward(&target, fx(0.0005)).unwrap();
    }
}
