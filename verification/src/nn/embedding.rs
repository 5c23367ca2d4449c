//! Quantized embedding: token id → row of an INT8 table.

use vstd::prelude::*;
use crate::matrix::Matrix;
use crate::quant::QTensor;

verus! {

/// A quantized embedding layer mapping token ids to INT8 dense vectors.
pub struct QEmbedding<const VOCAB: usize, const DIM: usize> {
    pub weights: QTensor<i8, VOCAB, DIM>,
}

impl<const VOCAB: usize, const DIM: usize> QEmbedding<VOCAB, DIM> {
    /// `y` is the `1 × DIM` tensor [`QEmbedding::lookup`] returns for `token`.
    pub open spec fn lookup_rel(self, token: int, y: QTensor<i8, 1, DIM>) -> bool {
        &&& y.params == self.weights.params
        &&& forall|d: int| 0 <= d < DIM ==> #[trigger] y.data.data[0][d] == self.weights.data.data[token][d]
    }

    /// Creates a new quantized embedding layer.
    pub fn new(weights: QTensor<i8, VOCAB, DIM>) -> (e: Self)
        ensures
            e.weights == weights,
    {
        QEmbedding { weights }
    }

    /// Look up one token id, returning its row as a `1 × DIM` tensor with
    /// the table's quantization parameters.
    ///
    /// `token < VOCAB` is required: any other token is outside the table.
    pub fn lookup(&self, token: usize) -> (out: QTensor<i8, 1, DIM>)
        requires
            token < VOCAB,
        ensures
            self.lookup_rel(token as int, out),
    {
        let mut row = [0i8; DIM];
        for d in 0..DIM
            invariant
                token < VOCAB,
                forall|x: int| 0 <= x < d ==> #[trigger] row[x] == self.weights.data.data[token as int][x],
        {
            row[d] = self.weights.raw(token, d);
        }
        let data = Matrix::from_array([row]);
        QTensor::new(data, self.weights.params)
    }

    /// Look up a sequence of token ids, returning the stacked `SEQ × DIM`
    /// rows with the table's quantization parameters.
    ///
    /// Every token must be `< VOCAB`: any other token is outside the table.
    pub fn lookup_batch<const SEQ: usize>(&self, tokens: [usize; SEQ]) -> (out: QTensor<i8, SEQ, DIM>)
        requires
            forall|i: int| 0 <= i < SEQ ==> #[trigger] tokens[i] < VOCAB,
        ensures
            out.params == self.weights.params,
            forall|i: int, d: int|
                0 <= i < SEQ && 0 <= d < DIM ==> #[trigger] out.data.data[i][d]
                    == self.weights.data.data[tokens[i] as int][d],
    {
        let mut batch_data = Matrix::<i8, SEQ, DIM>::zeros();
        for i in 0..SEQ
            invariant
                forall|j: int| 0 <= j < SEQ ==> #[trigger] tokens[j] < VOCAB,
                forall|j: int, d: int|
                    0 <= j < i && 0 <= d < DIM ==> #[trigger] batch_data.data[j][d]
                        == self.weights.data.data[tokens[j] as int][d],
        {
            let token = tokens[i];
            for d in 0..DIM
                invariant
                    0 <= i < SEQ,
                    token == tokens[i as int],
                    token < VOCAB,
                    forall|j: int, e: int|
                        0 <= j < SEQ && 0 <= e < DIM && (j < i || (j == i && e < d))
                            ==> #[trigger] batch_data.data[j][e]
                            == self.weights.data.data[tokens[j] as int][e],
            {
                batch_data.data[i][d] = self.weights.raw(token, d);
            }
        }
        QTensor::new(batch_data, self.weights.params)
    }
}

} // verus!
