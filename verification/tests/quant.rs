use matmul_engine::Matrix;
use matmul_engine::quant::{apply_relu, apply_relu6, apply_relu_i32, clamp_i16, clamp_i8, Clamp, QTensor, QuantParams, RequantShift};
use matmul_engine::quant::clip::{clamp_matrix_i8, clamp_u8, relu6_i8, relu_i32, relu_i8};
use matmul_engine::quant::requant::{
    frexp_bits,
    requantize_matrix,
    requantize_matrix_i32,
    requantize_matrix_i32_per_channel,
    requantize_matrix_per_channel,
    rounding_right_shift,
};
use matmul_engine::quant::scale::{i8_to_f32_bits, ONE_F32_BITS, RMS_EPS_F32_BITS};

// ── Clamp ────────────────────────────────────────────────────────────────────

#[test]
fn test_clamp_i8_in_range() {
    assert_eq!(i8::clamp_from_i64(50), 50i8);
    assert_eq!(i8::clamp_from_i64(-50), -50i8);
}

#[test]
fn test_clamp_i8_overflow() {
    assert_eq!(i8::clamp_from_i64(1000), i8::MAX);
    assert_eq!(i8::clamp_from_i64(-1000), i8::MIN);
}

#[test]
fn test_clamp_u8() {
    assert_eq!(clamp_u8(255), 255u8);
    assert_eq!(clamp_u8(256), 255u8);
    assert_eq!(clamp_u8(-1), 0u8);
}

// ── ReLU ─────────────────────────────────────────────────────────────────────

#[test]
fn test_relu_i8_positive_passthrough() {
    assert_eq!(relu_i8(42i8, 0), 42i8);
}

#[test]
fn test_relu_i8_negative_clamp() {
    assert_eq!(relu_i8(-10i8, 0), 0i8);
}

#[test]
fn test_relu_i8_asymmetric_zero_point() {
    assert_eq!(relu_i8(-100i8, -128i8), -100i8);
    assert_eq!(relu_i8(-10i8, 0), 0i8);
}

#[test]
fn test_relu6_i8_clips_max() {
    assert_eq!(relu6_i8(127i8, 0, 127), 127i8);
    assert_eq!(relu6_i8(-5i8, 0, 127), 0i8);
}

#[test]
fn test_apply_relu_matrix() {
    let mut m = Matrix::from_array([[-5i8, 10], [0, -1]]);
    apply_relu(&mut m, 0);
    assert_eq!(m.data, [[0i8, 10], [0, 0]]);
}

#[test]
fn test_apply_relu_i32_matrix() {
    let mut acc = Matrix::from_array([[-100i32, 500], [0, -1]]);
    apply_relu_i32(&mut acc, 0);
    assert_eq!(acc.data, [[0i32, 500], [0, 0]]);
}

#[test]
fn clamp_every_width() {
    assert_eq!(clamp_i8(200), 127);
    assert_eq!(clamp_i8(-200), -128);
    assert_eq!(clamp_i8(-7), -7);
    assert_eq!(clamp_i16(70_000), i16::MAX);
    assert_eq!(clamp_i16(-70_000), i16::MIN);
    assert_eq!(clamp_i16(1234), 1234);
    assert_eq!(i16::clamp_from_i64(i64::MAX), i16::MAX);
    assert_eq!(u16::clamp_from_i64(-3), 0);
    assert_eq!(i32::clamp_from_i64(1 << 40), i32::MAX);
    assert_eq!(u32::clamp_from_i64(1 << 40), u32::MAX);
    assert_eq!(i64::clamp_from_i64(i64::MIN), i64::MIN);
    assert_eq!(u8::clamp_from_i64(300), 255);
}

#[test]
fn relu_variants_and_matrix_clamp() {
    assert_eq!(relu_i32(-5, 0), 0);
    assert_eq!(relu_i32(-5, -10), -5);
    let mut m = Matrix::from_array([[-5i8, 10, 100], [3, -1, 60]]);
    apply_relu6(&mut m, 0, 50);
    assert_eq!(m.data, [[0i8, 10, 50], [3, 0, 50]]);
    let wide = Matrix::from_array([[1000i32, -1000, 5]]);
    let narrow = clamp_matrix_i8(&wide);
    assert_eq!(narrow.data, [[127i8, -128, 5]]);
}

/// Applying ReLU twice is the same as applying it once.
#[test]
fn relu_is_idempotent() {
    for q in i8::MIN..=i8::MAX {
        for zp in [-128i8, -3, 0, 7] {
            assert_eq!(relu_i8(relu_i8(q, zp), zp), relu_i8(q, zp));
        }
    }
}

// ── Requantization ───────────────────────────────────────────────────────────

#[test]
fn test_rounding_shift() {
    assert_eq!(rounding_right_shift(5, 1), 3);
    assert_eq!(rounding_right_shift(4, 1), 2);
    assert_eq!(rounding_right_shift(-5, 1), -2);
}

#[test]
fn test_frexp_basic() {
    let (m, e) = frexp_bits(8.0_f32.to_bits());
    let m = f32::from_bits(m);
    assert!((m - 0.5).abs() < 1e-6, "mantissa should be 0.5, got {m}");
    assert_eq!(e, 4);
}

#[test]
fn test_frexp_one() {
    let (m, e) = frexp_bits(1.0_f32.to_bits());
    let m = f32::from_bits(m);
    assert!((m - 0.5).abs() < 1e-6);
    assert_eq!(e, 1);
}

fn unit_shift() -> RequantShift {
    RequantShift::from_ratio_bits(((1.0f32 * 1.0f32) / 1.0f32).to_bits())
}

#[test]
fn test_requant_identity_scale() {
    let rs = unit_shift();
    let result: i8 = rs.apply_clamped(64i32);
    assert_eq!(result, 64i8);
}

#[test]
fn test_requant_scale_down() {
    let rs = RequantShift::from_ratio_bits(((0.1f32 * 0.1f32) / 1.0f32).to_bits());
    let result: i8 = rs.apply_clamped(10000i32);
    assert!((result as i32 - 100).abs() <= 2, "expected ≈100, got {result}");
}

#[test]
fn test_requant_clamps_to_i8_max() {
    let rs = unit_shift();
    let result: i8 = rs.apply_clamped(1000i32);
    assert_eq!(result, i8::MAX);
}

#[test]
fn test_requant_clamps_to_i8_min() {
    let rs = unit_shift();
    let result: i8 = rs.apply_clamped(-1000i32);
    assert_eq!(result, i8::MIN);
}

#[test]
fn test_requant_matrix() {
    let acc = Matrix::from_array([[64i32, -64], [127, -127]]);
    let rs = unit_shift();
    let out: Matrix<i8, 2, 2> = requantize_matrix(&acc, &rs);
    assert_eq!(out.data[0][0], 64i8);
    assert_eq!(out.data[0][1], -64i8);
    assert_eq!(out.data[1][0], 127i8);
    assert_eq!(out.data[1][1], -127i8);
}

/// A unit ratio gives the pair `(2^30, 30)`, which maps every accumulator
/// to itself.
#[test]
fn unit_ratio_is_identity() {
    let rs = unit_shift();
    assert_eq!(rs, RequantShift { multiplier: 0x4000_0000, shift: 30 });
    for acc in [-1_000_000i32, -129, -1, 0, 1, 77, 1 << 20, i32::MAX, i32::MIN] {
        assert_eq!(rs.apply(acc), acc);
        assert_eq!(rs.apply_i32(acc), acc);
    }
}

/// Multiplier in `[2^30, 2^31)` and shift `31 - exponent` for every non-zero
/// ratio; an exact formula check for a few.
#[test]
fn from_ratio_bits_formula() {
    let rs = RequantShift::from_ratio_bits(0.75f32.to_bits());
    // 0.75 = 0.75 × 2^0 → multiplier = 0.75 × 2^31, shift = 31
    assert_eq!(rs.multiplier, 0x6000_0000);
    assert_eq!(rs.shift, 31);
    let rs = RequantShift::from_ratio_bits(0.01f32.to_bits());
    assert_eq!(rs.shift, 31 + 6);
    assert!(rs.multiplier >= 1 << 30);
    let zero = RequantShift::from_ratio_bits(0.0f32.to_bits());
    assert_eq!(zero.multiplier, 0);
    assert_eq!(zero.shift, 31);
    let big = RequantShift::from_ratio_bits(1.0e30f32.to_bits());
    assert_eq!(big.shift, 0);
    for x in [1.0e-30f32, 3.0e-3, 0.2, 1.5, 1234.5, 6.0e20] {
        let rs = RequantShift::from_ratio_bits(x.to_bits());
        assert!(rs.multiplier >= 1 << 30);
        let (m, e) = frexp_bits(x.to_bits());
        assert_eq!(rs.multiplier as i64, (f32::from_bits(m) * (1u64 << 31) as f32).round() as i64);
        assert_eq!(rs.shift as i32, (31 - e).clamp(0, 62));
    }
}

/// Rounding is to the nearest multiple, halves up.
#[test]
fn rounding_shift_is_nearest() {
    for x in -1000i64..1000 {
        for s in 1u32..6 {
            let r = rounding_right_shift(x, s);
            let p = 1i64 << s;
            let h = 1i64 << (s - 1);
            assert!(r * p - h <= x && x < r * p + h, "x={x} s={s} r={r}");
        }
        assert_eq!(rounding_right_shift(x, 0), x);
    }
}

#[test]
fn requant_matrix_variants() {
    let acc = Matrix::from_array([[200i32, -3], [5, 1_000_000]]);
    let half = RequantShift::from_ratio_bits(0.5f32.to_bits());
    let wide = requantize_matrix_i32(&acc, &half);
    assert_eq!(wide.data, [[100i32, -1], [3, 500_000]]);
    let per = [unit_shift(), half];
    let narrow: Matrix<i8, 2, 2> = requantize_matrix_per_channel(&acc, &per);
    assert_eq!(narrow.data, [[127i8, -1], [5, 127]]);
    let per_wide = requantize_matrix_i32_per_channel(&acc, &per);
    assert_eq!(per_wide.data, [[200i32, -1], [5, 500_000]]);
}

// ── Scales and tensors ───────────────────────────────────────────────────────

#[test]
fn f32_constants_are_the_documented_values() {
    assert_eq!(ONE_F32_BITS, 1.0f32.to_bits());
    assert_eq!(RMS_EPS_F32_BITS, 1e-5f32.to_bits());
}

#[test]
fn i8_to_f32_bits_matches_cast() {
    for v in i8::MIN..=i8::MAX {
        assert_eq!(i8_to_f32_bits(v), (v as f32).to_bits(), "v = {v}");
    }
}

#[test]
fn quant_params_and_tensor_accessors() {
    let p = QuantParams::symmetric(0.5f32.to_bits());
    assert!(p.is_symmetric());
    assert_eq!(p.zero_point, 0);
    let a = QuantParams::affine(0.25f32.to_bits(), -3);
    assert!(!a.is_symmetric());
    assert_eq!(a.zero_point, -3);
    let t = QTensor::from_array([[1i8, 2, 3], [4, 5, 6]], a);
    assert_eq!(t.rows(), 2);
    assert_eq!(t.cols(), 3);
    assert_eq!(t.raw(1, 2), 6);
    assert_eq!(t.scale(), 0.25f32.to_bits());
    assert_eq!(t.zero_point(), -3);
    let z = QTensor::<i32, 2, 2>::zeros(p);
    assert_eq!(z.raw(1, 1), 0);
    assert_eq!(z.scale(), 0.5f32.to_bits());
}

/// The rounded value saturates into the output type before narrowing.
#[test]
fn apply_clamped_saturates_before_narrowing() {
    let rs = RequantShift { multiplier: 1 << 30, shift: 1 };
    // 4 × 2^30 / 2 = 2^31, beyond i32
    let r: i8 = rs.apply_clamped(4);
    assert_eq!(r, 127);
    let r: i8 = rs.apply_clamped(-5);
    assert_eq!(r, -128);
    let r: i32 = rs.apply_clamped(4);
    assert_eq!(r, i32::MAX);
    let r: i64 = rs.apply_clamped(4);
    assert_eq!(r, 1i64 << 31);
    let out: Matrix<i8, 1, 2> = requantize_matrix(&Matrix::from_array([[4i32, 1]]), &rs);
    assert_eq!(out.data, [[127i8, 127]]);
}
