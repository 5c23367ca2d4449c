//! A simple end-to-end quantized feed-forward pipeline:
//! token → embedding → linear (ReLU) → linear → logits.

use vstd::prelude::*;
use crate::nn::embedding::QEmbedding;
use crate::nn::linear::QLinear;
use crate::quant::QTensor;
use crate::runtime::decode::is_first_argmax;

verus! {

/// Embedding followed by two quantized linear layers.
pub struct TinyQModel<const VOCAB: usize, const EMBED: usize, const HIDDEN: usize, const OUT: usize> {
    pub embedding: QEmbedding<VOCAB, EMBED>,
    pub linear1: QLinear<EMBED, HIDDEN>,
    pub linear2: QLinear<HIDDEN, OUT>,
}

impl<const VOCAB: usize, const EMBED: usize, const HIDDEN: usize, const OUT: usize> TinyQModel<
    VOCAB,
    EMBED,
    HIDDEN,
    OUT,
> {
    /// The whole pipeline can run on `token` without overflow: the token is
    /// in the vocabulary, and each linear layer accepts the tensor it gets.
    pub open spec fn forward_ok(self, token: int) -> bool {
        &&& 0 <= token < VOCAB
        &&& EMBED <= usize::MAX - 4
        &&& HIDDEN <= usize::MAX - 4
        &&& OUT <= usize::MAX - 4
        &&& forall|x: QTensor<i8, 1, EMBED>|
            #[trigger] self.embedding.lookup_rel(token, x) ==> self.linear1.forward_ok(x.data)
        &&& forall|x: QTensor<i8, 1, EMBED>, h: QTensor<i8, 1, HIDDEN>|
            #[trigger] self.embedding.lookup_rel(token, x) && #[trigger] self.linear1.forward_rel(x, h)
                ==> self.linear2.forward_ok(h.data)
    }

    /// `y` is the logits tensor [`TinyQModel::forward`] returns for `token`.
    pub open spec fn forward_rel(self, token: int, y: QTensor<i8, 1, OUT>) -> bool {
        exists|x: QTensor<i8, 1, EMBED>, h: QTensor<i8, 1, HIDDEN>|
            #![trigger self.embedding.lookup_rel(token, x), self.linear1.forward_rel(x, h)]
            {
                &&& self.embedding.lookup_rel(token, x)
                &&& self.linear1.forward_rel(x, h)
                &&& self.linear2.forward_rel(h, y)
            }
    }

    /// Assemble a model from its layers.
    pub fn new(
        embedding: QEmbedding<VOCAB, EMBED>,
        linear1: QLinear<EMBED, HIDDEN>,
        linear2: QLinear<HIDDEN, OUT>,
    ) -> (m: Self)
        ensures
            m.embedding == embedding,
            m.linear1 == linear1,
            m.linear2 == linear2,
    {
        TinyQModel { embedding, linear1, linear2 }
    }

    /// token → embedding lookup → `linear1` → `linear2` → logits.
    pub fn forward(&self, token: usize) -> (logits: QTensor<i8, 1, OUT>)
        requires
            self.forward_ok(token as int),
        ensures
            self.forward_rel(token as int, logits),
    {
        let x = self.embedding.lookup(token);
        let hidden = self.linear1.forward(&x);
        let logits = self.linear2.forward(&hidden);
        logits
    }

    /// The index of the first largest logit — pure integer comparison.
    pub fn predict(&self, token: usize) -> (idx: usize)
        requires
            self.forward_ok(token as int),
        ensures
            exists|y: QTensor<i8, 1, OUT>|
                #[trigger] self.forward_rel(token as int, y) && is_first_argmax(
                    y.data.data[0]@,
                    idx as int,
                ),
    {
        let logits = self.forward(token);
        let mut max_val = i8::MIN;
        let mut max_idx: usize = 0;
        for i in 0..OUT
            invariant
                i == 0 ==> max_idx == 0 && max_val == i8::MIN,
                i > 0 ==> max_idx < i && max_val == logits.data.data[0][max_idx as int],
                forall|j: int| 0 <= j < i ==> #[trigger] logits.data.data[0][j] <= max_val,
                forall|j: int| 0 <= j < max_idx ==> #[trigger] logits.data.data[0][j] < max_val,
        {
            let val = logits.raw(0, i);
            if val > max_val {
                max_val = val;
                max_idx = i;
            }
        }
        proof {
            assert(is_first_argmax(logits.data.data[0]@, max_idx as int));
        }
        max_idx
    }
}

} // verus!
