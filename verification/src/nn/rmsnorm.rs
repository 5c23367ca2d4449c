//! Parameters of a quantized RMSNorm layer, and its integer sum of squares.
//!
//! The normalization itself is floating-point (square root, division) and
//! runs outside the library; the layer's weights and epsilon are carried as
//! `f32` bit patterns.

use vstd::prelude::*;

verus! {

/// A quantized RMSNorm primitive for transformer stabilization: a per
/// channel `f32` weight and an `f32` epsilon, both as bit patterns.
pub struct QRMSNorm<const DIM: usize> {
    pub weight: [u32; DIM],
    pub eps: u32,
}

impl<const DIM: usize> QRMSNorm<DIM> {
    /// Build from per-channel weights and epsilon (bit patterns).
    pub fn new(weight: [u32; DIM], eps: u32) -> (n: Self)
        ensures
            n.weight == weight,
            n.eps == eps,
    {
        QRMSNorm { weight, eps }
    }
}

/// `sum_{i < n} (row[i] - zero_point)^2`.
pub open spec fn sum_sq_prefix(row: Seq<i8>, zero_point: int, n: int) -> int
    decreases n,
{
    if n <= 0 {
        0
    } else {
        sum_sq_prefix(row, zero_point, n - 1) + (row[n - 1] - zero_point) * (row[n - 1] - zero_point)
    }
}

/// Partial sums of squares never decrease.
proof fn lemma_sum_sq_monotone(row: Seq<i8>, zero_point: int, m: int, n: int)
    requires
        0 <= m <= n,
    ensures
        0 <= sum_sq_prefix(row, zero_point, m) <= sum_sq_prefix(row, zero_point, n),
    decreases n,
{
    if n > m {
        lemma_sum_sq_monotone(row, zero_point, m, n - 1);
        let v = row[n - 1] - zero_point;
        assert(v * v >= 0) by (nonlinear_arith);
    } else if n > 0 {
        lemma_sum_sq_monotone(row, zero_point, 0, n - 1);
        let v = row[n - 1] - zero_point;
        assert(v * v >= 0) by (nonlinear_arith);
    }
}

/// The sum of squared centred values of a row, accumulated in `i32`: the
/// integer part of the root-mean-square that RMSNorm divides by.
///
/// The total must fit in `i32` (the accumulation would overflow
/// otherwise), as must every centred value.
pub fn sum_sq_centered<const DIM: usize>(row: &[i8; DIM], zero_point: i32) -> (s: i32)
    requires
        forall|i: int| 0 <= i < DIM ==> i32::MIN <= #[trigger] row[i] - zero_point <= i32::MAX,
        sum_sq_prefix(row@, zero_point as int, DIM as int) <= i32::MAX,
    ensures
        s == sum_sq_prefix(row@, zero_point as int, DIM as int),
{
    let mut sum_sq: i32 = 0;
    for i in 0..DIM
        invariant
            forall|j: int| 0 <= j < DIM ==> i32::MIN <= #[trigger] row[j] - zero_point <= i32::MAX,
            sum_sq_prefix(row@, zero_point as int, DIM as int) <= i32::MAX,
            sum_sq == sum_sq_prefix(row@, zero_point as int, i as int),
    {
        proof {
            lemma_sum_sq_monotone(row@, zero_point as int, i + 1, DIM as int);
            lemma_sum_sq_monotone(row@, zero_point as int, i as int, i + 1);
            assert(row@[i as int] == row[i as int]);
        }
        let v = (row[i] as i32) - zero_point;
        proof {
            assert(0 <= v * v) by (nonlinear_arith);
            assert(sum_sq + v * v == sum_sq_prefix(row@, zero_point as int, i + 1));
        }
        sum_sq = sum_sq + v * v;
    }
    sum_sq
}

} // verus!
