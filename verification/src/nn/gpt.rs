//! Parameters of a GPT-style multi-layer quantized transformer, and the
//! integer update of its residual stream.
//!
//! The forward passes keep the residual stream in `i32`, rescale it with
//! `f32` factors, and use floating-point softmax; they run outside the
//! library. Every `f32` here is an IEEE-754 bit pattern.

use vstd::prelude::*;
use crate::quant::{QTensor, QuantParams, RequantShift};
use crate::nn::linear::QLinear;
use crate::nn::embedding::QEmbedding;
use crate::nn::rmsnorm::QRMSNorm;
use crate::matrix::Matrix;
use crate::quant::clip::clamp_int;

verus! {

/// Multi-head attention over `HEADS` heads of `DIM / HEADS` channels.
pub struct QMultiHeadAttention<const SEQ: usize, const DIM: usize, const HEADS: usize> {}

/// One GPT block: pre-norm attention with output projection, pre-norm
/// feed-forward, both added into an `i32` residual stream.
pub struct QGPTBlock<const SEQ: usize, const DIM: usize, const HIDDEN: usize, const HEADS: usize> {
    pub norm1: QRMSNorm<DIM>,
    pub norm2: QRMSNorm<DIM>,
    pub q_proj: QLinear<DIM, DIM>,
    pub k_proj: QLinear<DIM, DIM>,
    pub v_proj: QLinear<DIM, DIM>,
    pub out_proj: QLinear<DIM, DIM>,
    pub ff1: QLinear<DIM, HIDDEN>,
    pub ff2: QLinear<HIDDEN, DIM>,
    /// `s_q × s_k / sqrt(head_dim)`.
    pub attn_scale: u32,
    pub attn_requant: RequantShift,
    pub attn_out_params: QuantParams,
    pub s_res_in: QuantParams,
    pub s_res_out: QuantParams,
}

/// A GPT-style model: token and position embeddings, `LAYERS` blocks, a
/// final norm and the language-model head.
pub struct QGPTModel<
    const VOCAB: usize,
    const SEQ: usize,
    const DIM: usize,
    const HIDDEN: usize,
    const HEADS: usize,
    const LAYERS: usize,
> {
    pub token_embeddings: QEmbedding<VOCAB, DIM>,
    pub pos_embeddings: QTensor<i8, SEQ, DIM>,
    pub blocks: [QGPTBlock<SEQ, DIM, HIDDEN, HEADS>; LAYERS],
    pub final_norm: QRMSNorm<DIM>,
    pub lm_head: QLinear<DIM, VOCAB>,
}

/// Add a block's requantized output `y` into the `i32` residual stream `x`,
/// saturating at the `i32` bounds instead of wrapping.
pub fn saturating_residual_add<const B: usize, const DIM: usize>(
    x: &mut Matrix<i32, B, DIM>,
    y: &Matrix<i32, B, DIM>,
)
    ensures
        forall|r: int, c: int|
            0 <= r < B && 0 <= c < DIM ==> #[trigger] final(x).data[r][c] as int == clamp_int(
                old(x).data[r][c] + y.data[r][c],
                i32::MIN as int,
                i32::MAX as int,
            ),
{
    for r in 0..B
        invariant
            forall|i: int, c: int|
                0 <= i < B && 0 <= c < DIM ==> #[trigger] x.data[i][c] as int == if i < r {
                    clamp_int(old(x).data[i][c] + y.data[i][c], i32::MIN as int, i32::MAX as int)
                } else {
                    old(x).data[i][c] as int
                },
    {
        for c in 0..DIM
            invariant
                0 <= r < B,
                forall|i: int, j: int|
                    0 <= i < B && 0 <= j < DIM ==> #[trigger] x.data[i][j] as int == if i < r || (i
                        == r && j < c) {
                        clamp_int(old(x).data[i][j] + y.data[i][j], i32::MIN as int, i32::MAX as int)
                    } else {
                        old(x).data[i][j] as int
                    },
        {
            let sum = x.data[r][c] as i64 + y.data[r][c] as i64;
            x.data[r][c] = if sum > i32::MAX as i64 {
                i32::MAX
            } else if sum < i32::MIN as i64 {
                i32::MIN
            } else {
                sum as i32
            };
        }
    }
}

} // verus!
