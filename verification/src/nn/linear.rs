//! Quantized fully connected layer.
//!
//! INT8 input → wide matmul (i8 × i8 → i32) → bias add → optional ReLU (in
//! i32) → per-channel requantize → INT8 output.

use vstd::prelude::*;
use crate::matrix::Matrix;
use crate::kernel::accum::WideAccum;
use crate::kernel::static_wide::{matmul_wide, dot_prefix, wide_matmul_fits};
use crate::quant::{QTensor, QuantParams, RequantShift};
use crate::quant::clip::{apply_relu_i32, clamp_int, max_int};
use crate::quant::requant::{requantize_matrix_per_channel, can_apply_per_channel};

verus! {

/// A fully connected (linear) layer for quantized inference.
///
/// `weight_scales` and `input_scale` are `f32` bit patterns; `requant[c]`
/// maps the accumulator of output channel `c` to the output scale.
pub struct QLinear<const IN_DIM: usize, const OUT_DIM: usize> {
    pub weights: Matrix<i8, IN_DIM, OUT_DIM>,
    pub bias: Option<Matrix<i32, 1, OUT_DIM>>,
    pub weight_scales: [u32; OUT_DIM],
    pub requant: [RequantShift; OUT_DIM],
    pub out_params: QuantParams,
    pub relu: bool,
    pub input_scale: u32,
}

impl<const IN_DIM: usize, const OUT_DIM: usize> QLinear<IN_DIM, OUT_DIM> {
    /// The accumulator of row `r`, channel `c`: dot product plus bias.
    pub open spec fn spec_pre_activation<const BATCH: usize>(
        self,
        x: Matrix<i8, BATCH, IN_DIM>,
        r: int,
        c: int,
    ) -> int {
        dot_prefix(x, self.weights, r, c, IN_DIM as int) + match self.bias {
            Some(b) => b.data[0][c] as int,
            None => 0,
        }
    }

    /// The accumulator after the optional fused ReLU.
    pub open spec fn spec_activation<const BATCH: usize>(
        self,
        x: Matrix<i8, BATCH, IN_DIM>,
        r: int,
        c: int,
    ) -> int {
        if self.relu {
            max_int(self.spec_pre_activation(x, r, c), 0)
        } else {
            self.spec_pre_activation(x, r, c)
        }
    }

    /// The input is one the layer can process without an arithmetic
    /// overflow (an overflow would panic): the matmul and the bias add stay
    /// in `i32`, and every channel's requantization is defined.
    pub open spec fn forward_ok<const BATCH: usize>(self, x: Matrix<i8, BATCH, IN_DIM>) -> bool {
        &&& wide_matmul_fits(x, self.weights)
        &&& forall|r: int, c: int|
            0 <= r < BATCH && 0 <= c < OUT_DIM ==> i32::MIN <= #[trigger] self.spec_pre_activation(
                x,
                r,
                c,
            ) <= i32::MAX
        &&& forall|r: int, c: int|
            0 <= r < BATCH && 0 <= c < OUT_DIM ==> self.requant[c].can_apply(
                #[trigger] self.spec_activation(x, r, c),
            )
    }

    /// The INT8 output of row `r`, channel `c`.
    pub open spec fn spec_output<const BATCH: usize>(
        self,
        x: Matrix<i8, BATCH, IN_DIM>,
        r: int,
        c: int,
    ) -> int {
        clamp_int(
            self.requant[c].spec_requant(self.spec_activation(x, r, c)),
            i8::MIN as int,
            i8::MAX as int,
        )
    }

    /// `y` is what [`QLinear::forward`] returns for input `x`.
    pub open spec fn forward_rel<const BATCH: usize>(
        self,
        x: QTensor<i8, BATCH, IN_DIM>,
        y: QTensor<i8, BATCH, OUT_DIM>,
    ) -> bool {
        &&& y.params == self.out_params
        &&& forall|r: int, c: int|
            0 <= r < BATCH && 0 <= c < OUT_DIM ==> #[trigger] y.data.data[r][c] as int
                == self.spec_output(x.data, r, c)
    }

    /// Forward pass returning the raw `i32` accumulators (bias added, ReLU
    /// applied), before requantization.
    pub fn forward_i32<const BATCH: usize>(&self, x: &QTensor<i8, BATCH, IN_DIM>) -> (acc: Matrix<
        i32,
        BATCH,
        OUT_DIM,
    >)
        requires
            BATCH <= usize::MAX - 4,
            IN_DIM <= usize::MAX - 4,
            OUT_DIM <= usize::MAX - 4,
            wide_matmul_fits(x.data, self.weights),
            forall|r: int, c: int|
                0 <= r < BATCH && 0 <= c < OUT_DIM ==> i32::MIN
                    <= #[trigger] self.spec_pre_activation(x.data, r, c) <= i32::MAX,
        ensures
            forall|r: int, c: int|
                0 <= r < BATCH && 0 <= c < OUT_DIM ==> #[trigger] acc.data[r][c] as int
                    == self.spec_activation(x.data, r, c),
    {
        let mut acc = matmul_wide(&x.data, &self.weights);
        proof {
            assert forall|i: int, c: int| 0 <= i < BATCH && 0 <= c < OUT_DIM implies #[trigger] acc.data[i][c] as int
                == dot_prefix(x.data, self.weights, i, c, IN_DIM as int) by {
                assert(<i8 as WideAccum>::accum_value(acc.data[i][c]) == dot_prefix(
                    x.data,
                    self.weights,
                    i,
                    c,
                    IN_DIM as int,
                ));
            }
        }
        if let Some(bias) = &self.bias {
            for r in 0..BATCH
                invariant
                    self.bias == Some(*bias),
                    forall|i: int, c: int|
                        0 <= i < BATCH && 0 <= c < OUT_DIM ==> i32::MIN
                            <= #[trigger] self.spec_pre_activation(x.data, i, c) <= i32::MAX,
                    forall|i: int, c: int|
                        0 <= i < BATCH && 0 <= c < OUT_DIM ==> #[trigger] acc.data[i][c] as int == if i < r {
                            self.spec_pre_activation(x.data, i, c)
                        } else {
                            dot_prefix(x.data, self.weights, i, c, IN_DIM as int)
                        },
            {
                for c in 0..OUT_DIM
                    invariant
                        0 <= r < BATCH,
                        self.bias == Some(*bias),
                        forall|i: int, c: int|
                            0 <= i < BATCH && 0 <= c < OUT_DIM ==> i32::MIN
                                <= #[trigger] self.spec_pre_activation(x.data, i, c) <= i32::MAX,
                        forall|i: int, j: int|
                            0 <= i < BATCH && 0 <= j < OUT_DIM ==> #[trigger] acc.data[i][j] as int
                                == if i < r || (i == r && j < c) {
                                self.spec_pre_activation(x.data, i, j)
                            } else {
                                dot_prefix(x.data, self.weights, i, j, IN_DIM as int)
                            },
                {
                    proof {
                        assert(i32::MIN <= self.spec_pre_activation(x.data, r as int, c as int)
                            <= i32::MAX);
                    }
                    acc.data[r][c] += bias.data[0][c];
                }
            }
        }
        if self.relu {
            apply_relu_i32(&mut acc, 0);
        }
        acc
    }

    /// Forward pass: accumulate, add bias, optional ReLU, requantize each
    /// channel with its own [`RequantShift`], saturating to `i8`.
    pub fn forward<const BATCH: usize>(&self, x: &QTensor<i8, BATCH, IN_DIM>) -> (y: QTensor<
        i8,
        BATCH,
        OUT_DIM,
    >)
        requires
            BATCH <= usize::MAX - 4,
            IN_DIM <= usize::MAX - 4,
            OUT_DIM <= usize::MAX - 4,
            self.forward_ok(x.data),
        ensures
            self.forward_rel(*x, y),
    {
        let acc = self.forward_i32(x);
        proof {
            assert forall|r: int, c: int| 0 <= r < BATCH && 0 <= c < OUT_DIM implies self.requant[c].can_apply(
                #[trigger] acc.data[r][c] as int,
            ) by {
                assert(self.requant[c].can_apply(self.spec_activation(x.data, r, c)));
            }
        }
        let out_data: Matrix<i8, BATCH, OUT_DIM> = requantize_matrix_per_channel(&acc, &self.requant);
        QTensor::new(out_data, self.out_params)
    }
}

} // verus!
