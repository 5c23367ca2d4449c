//! A quantized transformer block (prototype) and its integer residual add.

use vstd::prelude::*;
use crate::matrix::Matrix;
use crate::quant::{QTensor, QuantParams, RequantShift};
use crate::quant::clip::{clamp_i8, clamp_int};
use crate::nn::linear::QLinear;
use crate::nn::rmsnorm::QRMSNorm;

verus! {

/// A quantized transformer block: RMSNorm, Q/K/V projections, attention,
/// residual, RMSNorm, feed-forward, residual.
///
/// Its forward passes use floating-point normalization and softmax and
/// run outside the library; the block's parameters live here.
pub struct QTransformerBlock<const SEQ: usize, const DIM: usize, const HIDDEN: usize> {
    pub norm1: QRMSNorm<DIM>,
    pub norm2: QRMSNorm<DIM>,
    pub q_proj: QLinear<DIM, DIM>,
    pub k_proj: QLinear<DIM, DIM>,
    pub v_proj: QLinear<DIM, DIM>,
    pub ff1: QLinear<DIM, HIDDEN>,
    pub ff2: QLinear<HIDDEN, DIM>,
    /// Requantization of the attention output.
    pub attn_requant: RequantShift,
    pub attn_out_params: QuantParams,
}

/// Add two `i8` tensors of the residual stream, which share quantization
/// parameters: `q_out = clamp(q1 + q2 - zero_point, -128, 127)`, computed
/// in `i32` so nothing wraps. The output keeps `a`'s parameters.
///
/// `q1 + q2 - zero_point` must fit in `i32` (the subtraction would
/// overflow otherwise; any zero-point within `i8` range is fine).
pub fn residual_add_i8<const SEQ: usize, const DIM: usize>(
    a: &QTensor<i8, SEQ, DIM>,
    b: &QTensor<i8, SEQ, DIM>,
) -> (out: QTensor<i8, SEQ, DIM>)
    requires
        forall|r: int, c: int|
            0 <= r < SEQ && 0 <= c < DIM ==> i32::MIN <= #[trigger] a.data.data[r][c]
                + b.data.data[r][c] - a.params.zero_point <= i32::MAX,
    ensures
        out.params == a.params,
        forall|r: int, c: int|
            0 <= r < SEQ && 0 <= c < DIM ==> #[trigger] out.data.data[r][c] as int == clamp_int(
                a.data.data[r][c] + b.data.data[r][c] - a.params.zero_point,
                i8::MIN as int,
                i8::MAX as int,
            ),
{
    let mut out_data = Matrix::<i8, SEQ, DIM>::zeros();
    for r in 0..SEQ
        invariant
            forall|i: int, c: int|
                0 <= i < SEQ && 0 <= c < DIM ==> i32::MIN <= #[trigger] a.data.data[i][c]
                    + b.data.data[i][c] - a.params.zero_point <= i32::MAX,
            forall|i: int, c: int|
                0 <= i < r && 0 <= c < DIM ==> #[trigger] out_data.data[i][c] as int == clamp_int(
                    a.data.data[i][c] + b.data.data[i][c] - a.params.zero_point,
                    i8::MIN as int,
                    i8::MAX as int,
                ),
    {
        for c in 0..DIM
            invariant
                0 <= r < SEQ,
                forall|i: int, c: int|
                    0 <= i < SEQ && 0 <= c < DIM ==> i32::MIN <= #[trigger] a.data.data[i][c]
                        + b.data.data[i][c] - a.params.zero_point <= i32::MAX,
                forall|i: int, j: int|
                    0 <= i < SEQ && 0 <= j < DIM && (i < r || (i == r && j < c))
                        ==> #[trigger] out_data.data[i][j] as int == clamp_int(
                        a.data.data[i][j] + b.data.data[i][j] - a.params.zero_point,
                        i8::MIN as int,
                        i8::MAX as int,
                    ),
        {
            let sum = (a.raw(r, c) as i32) + (b.raw(r, c) as i32);
            proof {
                assert(i32::MIN <= a.data.data[r as int][c as int] + b.data.data[r as int][c as int]
                    - a.params.zero_point <= i32::MAX);
            }
            let val = sum - a.zero_point();
            out_data.data[r][c] = clamp_i8(val);
        }
    }
    QTensor::new(out_data, a.params)
}

} // verus!
