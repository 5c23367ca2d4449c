use matmul_engine::Matrix;
use matmul_engine::nn::{QAttention, QEmbedding, QLinear, TinyQModel};
use matmul_engine::nn::transformer::residual_add_i8;
use matmul_engine::quant::{QTensor, QuantParams, RequantShift};
use matmul_engine::testing::fuzz::LcgRng;

fn unit_params() -> QuantParams {
    QuantParams::symmetric(1.0f32.to_bits())
}

/// A linear layer whose scales are all 1.0 (input, weights, output), so
/// every channel's requantization ratio is `1.0 × 1.0 / 1.0`.
fn unit_linear<const I: usize, const O: usize>(
    w: Matrix<i8, I, O>,
    bias: Option<Matrix<i32, 1, O>>,
    relu: bool,
) -> QLinear<I, O> {
    let rs = RequantShift::from_ratio_bits(((1.0f32 * 1.0f32) / 1.0f32).to_bits());
    QLinear {
        weights: w,
        bias,
        weight_scales: [1.0f32.to_bits(); O],
        requant: [rs; O],
        out_params: unit_params(),
        relu,
        input_scale: 1.0f32.to_bits(),
    }
}

// ── Embedding ────────────────────────────────────────────────────────────────

fn make_test_embedding() -> QEmbedding<4, 3> {
    let params = QuantParams::symmetric(0.5f32.to_bits());
    let data = Matrix::from_array([[0, 1, 2], [10, 11, 12], [20, 21, 22], [30, 31, 32]]);
    QEmbedding::new(QTensor::new(data, params))
}

#[test]
fn test_embedding_lookup_single() {
    let emb = make_test_embedding();
    let out = emb.lookup(1);
    assert_eq!(out.rows(), 1);
    assert_eq!(out.cols(), 3);
    assert_eq!(out.raw(0, 0), 10);
    assert_eq!(out.raw(0, 1), 11);
    assert_eq!(out.raw(0, 2), 12);
}

#[test]
fn test_embedding_lookup_batch() {
    let emb = make_test_embedding();
    let tokens = [2, 0];
    let out = emb.lookup_batch(tokens);
    assert_eq!(out.rows(), 2);
    assert_eq!(out.cols(), 3);
    assert_eq!(out.raw(0, 0), 20);
    assert_eq!(out.raw(0, 1), 21);
    assert_eq!(out.raw(0, 2), 22);
    assert_eq!(out.raw(1, 0), 0);
    assert_eq!(out.raw(1, 1), 1);
    assert_eq!(out.raw(1, 2), 2);
}

#[test]
fn test_embedding_preserves_quant_params() {
    let emb = make_test_embedding();
    let out_single = emb.lookup(3);
    assert_eq!(out_single.scale(), emb.weights.scale());
    assert_eq!(out_single.zero_point(), emb.weights.zero_point());
    let out_batch = emb.lookup_batch([0, 1]);
    assert_eq!(out_batch.scale(), emb.weights.scale());
    assert_eq!(out_batch.zero_point(), emb.weights.zero_point());
}

// ── Linear ───────────────────────────────────────────────────────────────────

#[test]
fn test_qlinear_forward() {
    let w_data = Matrix::from_array([[10i8, 0, -10], [0, 10, -10]]);
    let bias = Matrix::from_array([[5i32, -5, 0]]);
    let x = QTensor::new(Matrix::from_array([[5i8, 5]]), unit_params());
    let linear = unit_linear(w_data, Some(bias), true);
    let out = linear.forward(&x);
    assert_eq!(out.rows(), 1);
    assert_eq!(out.cols(), 3);
    assert_eq!(out.raw(0, 2), 0);
    assert!(out.raw(0, 0) > 0);
    assert!(out.raw(0, 1) > 0);
}

#[test]
fn qlinear_forward_exact_values() {
    let w_data = Matrix::from_array([[10i8, 0, -10], [0, 10, -10]]);
    let bias = Matrix::from_array([[5i32, -5, 0]]);
    let x = QTensor::new(Matrix::from_array([[5i8, 5], [-2, 1]]), unit_params());
    let linear = unit_linear(w_data, Some(bias), true);
    let acc = linear.forward_i32(&x);
    // row 0: [50 + 5, 50 - 5, -100 → relu 0]; row 1: [-20 + 5 → 0, 10 - 5, 10]
    assert_eq!(acc.data, [[55i32, 45, 0], [0, 5, 10]]);
    let out = linear.forward(&x);
    assert_eq!(out.data.data, [[55i8, 45, 0], [0, 5, 10]]);
    let no_relu = unit_linear(w_data, None, false);
    let acc = no_relu.forward_i32(&x);
    assert_eq!(acc.data, [[50i32, 50, -100], [-20, 10, 10]]);
    // saturates to i8 after requantization
    let big = QTensor::new(Matrix::from_array([[100i8, 100]]), unit_params());
    let out = no_relu.forward(&big);
    assert_eq!(out.data.data, [[127i8, 127, -128]]);
}

// ── Pipeline ─────────────────────────────────────────────────────────────────

fn build_test_model() -> TinyQModel<4, 3, 2, 4> {
    let params = unit_params();
    let emb_data = Matrix::from_array([[1, 2, 3], [-1, -2, -3], [0, 10, 0], [5, 5, 5]]);
    let embedding = QEmbedding::new(QTensor::new(emb_data, params));
    let l1_w_data = Matrix::from_array([[2, 0], [0, 2], [1, -1]]);
    let linear1 = unit_linear(l1_w_data, Some(Matrix::from_array([[1, -1]])), true);
    let l2_w_data = Matrix::from_array([[1, 0, 0, -1], [0, 1, -1, 0]]);
    let linear2 = unit_linear(l2_w_data, None, false);
    TinyQModel::new(embedding, linear1, linear2)
}

#[test]
fn test_tiny_pipeline_forward() {
    let model = build_test_model();
    let logits = model.forward(0);
    assert_eq!(logits.rows(), 1);
    assert_eq!(logits.cols(), 4);
    assert_eq!(logits.raw(0, 0), 6);
    assert_eq!(logits.raw(0, 1), 0);
    assert_eq!(logits.raw(0, 2), 0);
    assert_eq!(logits.raw(0, 3), -6);
}

#[test]
fn test_tiny_pipeline_predict() {
    let model = build_test_model();
    let pred = model.predict(0);
    assert_eq!(pred, 0);
}

#[test]
fn test_pipeline_quant_params_consistency() {
    let model = build_test_model();
    let logits = model.forward(0);
    assert_eq!(f32::from_bits(logits.scale()), 1.0);
    assert_eq!(logits.zero_point(), 0);
}

#[test]
fn test_pipeline_relu_stability() {
    let model = build_test_model();
    let logits = model.forward(1);
    assert_eq!(logits.raw(0, 0), 0);
    assert_eq!(logits.raw(0, 1), 0);
    assert_eq!(logits.raw(0, 2), 0);
    assert_eq!(logits.raw(0, 3), 0);
}

#[test]
fn pipeline_predict_takes_first_maximum() {
    let model = build_test_model();
    // token 2: emb [0, 10, 0] → l1 [0, 20] + bias [1, -1] → [1, 19]
    // → l2 [1, 19, -19, -1]
    let logits = model.forward(2);
    assert_eq!(logits.data.data, [[1i8, 19, -19, -1]]);
    assert_eq!(model.predict(2), 1);
    // token 1 gives all-zero logits: the first index wins
    assert_eq!(model.predict(1), 0);
}

// ── Attention ────────────────────────────────────────────────────────────────

fn build_tensors() -> (QTensor<i8, 3, 2>, QTensor<i8, 3, 2>) {
    let params = unit_params();
    let q = QTensor::new(Matrix::from_array([[1, 0], [0, 1], [-1, -1]]), params);
    let k = QTensor::new(Matrix::from_array([[1, 0], [0, 1], [1, 1]]), params);
    (q, k)
}

#[test]
fn test_attention_score_shape() {
    let (q, k) = build_tensors();
    let scores = QAttention::<3, 2>::compute_scores(&q, &k);
    assert_eq!(scores.rows(), 3);
    assert_eq!(scores.cols(), 3);
}

#[test]
fn test_attention_self_similarity() {
    let x = QTensor::new(Matrix::from_array([[2, 0], [0, 2]]), unit_params());
    let scores = QAttention::<2, 2>::compute_scores(&x, &x);
    assert_eq!(scores.data[0][0], 4);
    assert_eq!(scores.data[1][1], 4);
}

#[test]
fn test_random_tensor_fuzz() {
    let mut rng = LcgRng::new(999);
    let q_mat = rng.fill_matrix_i8::<4, 8>();
    let k_mat = rng.fill_matrix_i8::<4, 8>();
    let q = QTensor::new(q_mat, unit_params());
    let k = QTensor::new(k_mat, unit_params());
    let scores = QAttention::<4, 8>::compute_scores(&q, &k);
    assert_eq!(scores.rows(), 4);
}

#[test]
fn attention_scores_exact() {
    let (q, k) = build_tensors();
    let scores = QAttention::<3, 2>::compute_scores(&q, &k);
    assert_eq!(scores.data, [[1i32, 0, 1], [0, 1, 1], [-1, -1, -2]]);
}

// ── Residual add ─────────────────────────────────────────────────────────────

#[test]
fn test_residual_accumulator_bounds() {
    let params = unit_params();
    let a = QTensor::new(Matrix::<i8, 2, 2>::from_array([[127, 127], [-128, -128]]), params);
    let b = QTensor::new(Matrix::<i8, 2, 2>::from_array([[127, 10], [-128, -10]]), params);
    let out = residual_add_i8(&a, &b);
    assert_eq!(out.raw(0, 0), 127);
    assert_eq!(out.raw(0, 1), 127);
    assert_eq!(out.raw(1, 0), -128);
    assert_eq!(out.raw(1, 1), -128);
}

#[test]
fn residual_add_subtracts_zero_point() {
    let params = QuantParams::affine(0.5f32.to_bits(), 10);
    let a = QTensor::new(Matrix::<i8, 1, 3>::from_array([[20, -100, 0]]), params);
    let b = QTensor::new(Matrix::<i8, 1, 3>::from_array([[30, -100, 5]]), params);
    let out = residual_add_i8(&a, &b);
    assert_eq!(out.data.data, [[40i8, -128, -5]]);
    assert_eq!(out.zero_point(), 10);
}

#[test]
fn prefix_scores_use_first_channels_only() {
    let params = unit_params();
    let q = QTensor::new(Matrix::from_array([[1i8, 2, 100], [-3, 4, -100]]), params);
    let k = QTensor::new(Matrix::from_array([[5i8, 6, 7], [-1, 1, 9]]), params);
    let s1 = QAttention::<2, 3>::compute_scores_prefix(&q, &k, 2);
    assert_eq!(s1.data, [[17i32, 1], [9, 7]]);
    let s0 = QAttention::<2, 3>::compute_scores_prefix(&q, &k, 0);
    assert_eq!(s0.data, [[0i32, 0], [0, 0]]);
    let full = QAttention::<2, 3>::compute_scores(&q, &k);
    assert_eq!(QAttention::<2, 3>::compute_scores_prefix(&q, &k, 3).data, full.data);
}
