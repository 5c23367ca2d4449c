use matmul_engine::{dyn_matmul_wide, matmul_wide, DynMatrix, Matrix, WideAccum};
use matmul_engine::kernel::static_wide::TILE;

// ── WideAccum ────────────────────────────────────────────────────────────────

#[test]
fn test_widen_i8_to_i32() {
    let x: i8 = 127;
    let w: i32 = x.widen();
    assert_eq!(w, 127i32);

    let y: i8 = -128;
    assert_eq!(y.widen(), -128i32);
}

#[test]
fn test_widen_u8_to_u32() {
    let x: u8 = 255;
    assert_eq!(x.widen(), 255u32);
}

#[test]
fn test_widen_i16_to_i64() {
    let x: i16 = i16::MIN;
    assert_eq!(x.widen(), i16::MIN as i64);
}

#[test]
fn test_widen_i32_to_i64() {
    let x: i32 = i32::MAX;
    assert_eq!(x.widen(), i32::MAX as i64);
}

// ── i8 × i8 → i32 ────────────────────────────────────────────────────────────

#[test]
fn test_i8_to_i32_2x2() {
    let a = Matrix::from_array([[1i8, 2], [3, 4]]);
    let b = Matrix::from_array([[5i8, 6], [7, 8]]);
    let c: Matrix<i32, 2, 2> = matmul_wide(&a, &b);
    assert_eq!(c.data, [[19i32, 22], [43, 50]]);
}

#[test]
fn test_i8_overflow_would_happen_without_widening() {
    let a = Matrix::from_array([[127i8, 127, 127, 127]]);
    let b = Matrix::from_array([[127i8], [127], [127], [127]]);
    let c: Matrix<i32, 1, 1> = matmul_wide(&a, &b);
    assert_eq!(c.data[0][0], 64_516i32);
}

#[test]
fn test_i8_negative_values() {
    let a = Matrix::from_array([[-1i8, -2], [3, -4]]);
    let b = Matrix::from_array([[2i8, -3], [-4, 5]]);
    let c: Matrix<i32, 2, 2> = matmul_wide(&a, &b);
    assert_eq!(c.data, [[6i32, -7], [22, -29]]);
}

#[test]
fn test_u8_to_u32_2x2() {
    let a = Matrix::from_array([[200u8, 200], [100, 100]]);
    let b = Matrix::from_array([[200u8, 100], [200, 100]]);
    let c: Matrix<u32, 2, 2> = matmul_wide(&a, &b);
    assert_eq!(c.data, [[80_000u32, 40_000], [40_000, 20_000]]);
}

#[test]
fn test_i16_to_i64_audio_dsp() {
    let signal = Matrix::from_array([[1000i16, -2000]]);
    let weights = Matrix::from_array([[300i16], [400i16]]);
    let out: Matrix<i64, 1, 1> = matmul_wide(&signal, &weights);
    assert_eq!(out.data[0][0], -500_000i64);
}

#[test]
fn test_i32_to_i64_wide_accum() {
    let a = Matrix::from_array([[1_000_000i32, 2_000_000]]);
    let b = Matrix::from_array([[3_000_000i32], [4_000_000]]);
    let c: Matrix<i64, 1, 1> = matmul_wide(&a, &b);
    assert_eq!(c.data[0][0], 11_000_000_000_000i64);
}

#[test]
fn test_i8_nonsquare_3x4_times_4x2() {
    let a = Matrix::from_array([[1i8, 0, 0, 0], [0, 1, 0, 0], [0, 0, 1, 0]]);
    let b = Matrix::from_array([[10i8, 20], [30, 40], [50, 60], [70, 80]]);
    let c: Matrix<i32, 3, 2> = matmul_wide(&a, &b);
    assert_eq!(c.data, [[10i32, 20], [30, 40], [50, 60]]);
}

#[test]
fn test_i64_identity_accum() {
    let a = Matrix::from_array([[2i64, 3], [4, 5]]);
    let b = Matrix::from_array([[1i64, 0], [0, 1]]);
    let c: Matrix<i64, 2, 2> = matmul_wide(&a, &b);
    assert_eq!(c.data, [[2i64, 3], [4, 5]]);
}

#[test]
fn test_homogeneous_i32_regression() {
    let a = Matrix::from_array([[1i32, 2], [3, 4]]);
    let b = Matrix::from_array([[5i32, 6], [7, 8]]);
    let c = matmul_engine::matmul(&a, &b);
    assert_eq!(c.data, [[19i32, 22], [43, 50]]);
}

// ── Dynamic widening kernel ──────────────────────────────────────────────────

#[test]
fn test_dyn_i8_to_i32() {
    let a = DynMatrix::<i8>::from_slice(2, 2, &[1, 2, 3, 4]);
    let b = DynMatrix::<i8>::from_slice(2, 2, &[5, 6, 7, 8]);
    let c: DynMatrix<i32> = dyn_matmul_wide(&a, &b);
    assert_eq!(c.get(0, 0), 19);
    assert_eq!(c.get(0, 1), 22);
    assert_eq!(c.get(1, 0), 43);
    assert_eq!(c.get(1, 1), 50);
}

#[test]
fn test_dyn_u8_overflow_safety() {
    let a = DynMatrix::<u8>::from_slice(1, 2, &[255, 255]);
    let b = DynMatrix::<u8>::from_slice(2, 1, &[255, 255]);
    let c: DynMatrix<u32> = dyn_matmul_wide(&a, &b);
    assert_eq!(c.get(0, 0), 130_050u32);
}

// ── Further cases ────────────────────────────────────────────────────────────

/// Multiplying by the identity gives the left operand back (law example).
#[test]
fn wide_identity_returns_left_operand_i16() {
    let a = Matrix::from_array([[-32768i16, 32767, 5], [0, -1, 64], [9, 8, 7]]);
    let id = Matrix::<i16, 3, 3>::identity();
    assert_eq!(id.data, [[1i16, 0, 0], [0, 1, 0], [0, 0, 1]]);
    let c: Matrix<i64, 3, 3> = matmul_wide(&a, &id);
    for r in 0..3 {
        for k in 0..3 {
            assert_eq!(c.data[r][k], a.data[r][k] as i64);
        }
    }
}

/// The homogeneous and widening kernels agree where neither overflows.
#[test]
fn homogeneous_and_wide_kernels_agree() {
    let a = Matrix::from_array([[3i32, -7, 11, 2, 0], [1, 2, 3, 4, 5], [-9, 9, -9, 9, -9]]);
    let b = Matrix::from_array([[1i32, 2], [3, 4], [5, 6], [7, 8], [9, 10]]);
    let h = matmul_engine::matmul(&a, &b);
    let w: Matrix<i64, 3, 2> = matmul_wide(&a, &b);
    for r in 0..3 {
        for c in 0..2 {
            assert_eq!(h.data[r][c] as i64, w.data[r][c]);
        }
    }
}

/// Shapes larger than one tile in every dimension are handled exactly.
#[test]
fn wide_kernel_spans_several_tiles() {
    assert_eq!(TILE, 4);
    let mut a = Matrix::<i8, 6, 9>::zeros();
    let mut b = Matrix::<i8, 9, 7>::zeros();
    for r in 0..6 {
        for k in 0..9 {
            a.data[r][k] = ((r * 9 + k) as i32 % 23 - 11) as i8;
        }
    }
    for k in 0..9 {
        for c in 0..7 {
            b.data[k][c] = ((k * 7 + c) as i32 % 19 - 9) as i8;
        }
    }
    let out: Matrix<i32, 6, 7> = matmul_wide(&a, &b);
    for r in 0..6 {
        for c in 0..7 {
            let mut want = 0i32;
            for k in 0..9 {
                want += a.data[r][k] as i32 * b.data[k][c] as i32;
            }
            assert_eq!(out.data[r][c], want);
        }
    }
}

/// The dynamic kernel matches the static one on the same data.
#[test]
fn dyn_kernel_matches_static_kernel() {
    let a = Matrix::from_array([[1i8, -2, 3], [-4, 5, -6]]);
    let b = Matrix::from_array([[7i8, 8], [9, 10], [11, 12]]);
    let s: Matrix<i32, 2, 2> = matmul_wide(&a, &b);
    let da = DynMatrix::<i8>::from_slice(2, 3, &[1, -2, 3, -4, 5, -6]);
    let db = DynMatrix::<i8>::from_slice(3, 2, &[7, 8, 9, 10, 11, 12]);
    let d: DynMatrix<i32> = dyn_matmul_wide(&da, &db);
    assert_eq!(d.rows(), 2);
    assert_eq!(d.cols(), 2);
    for r in 0..2 {
        for c in 0..2 {
            assert_eq!(d.get(r, c), s.data[r][c]);
        }
    }
}

#[test]
fn matrix_accessors() {
    let mut m = Matrix::<i16, 2, 3>::zeros();
    assert_eq!(m.rows(), 2);
    assert_eq!(m.cols(), 3);
    m.set(1, 2, -7);
    assert_eq!(m.get(1, 2), -7);
    assert_eq!(m.get(0, 0), 0);
    let t = m.transposed();
    assert_eq!(t.data[2][1], -7);
    let mut d = DynMatrix::<u16>::zeros(2, 2);
    d.set(1, 0, 9);
    assert_eq!(d.get(1, 0), 9);
    assert_eq!(d.get(0, 1), 0);
}
