//! Integer decoding: argmax over logits and the greedy decoding loop.
//!
//! [`GreedyDecoder`] holds the decisions of greedy autoregressive decoding;
//! the model step that produces each token's logits is run by its caller.

use vstd::prelude::*;
use crate::runtime::kv_cache::KVCacheError;

verus! {

/// `i` is the first position of a maximum of `s` (0 when `s` is empty).
pub open spec fn is_first_argmax(s: Seq<i8>, i: int) -> bool {
    if s.len() == 0 {
        i == 0
    } else {
        &&& 0 <= i < s.len()
        &&& forall|j: int| 0 <= j < s.len() ==> #[trigger] s[j] <= s[i]
        &&& forall|j: int| 0 <= j < i ==> #[trigger] s[j] < s[i]
    }
}

/// Pure integer argmax: the index of the first largest logit (0 for an
/// empty slice).
pub fn argmax_logits(logits: &[i8]) -> (idx: usize)
    ensures
        is_first_argmax(logits@, idx as int),
{
    let mut max_val = i8::MIN;
    let mut max_idx: usize = 0;
    for i in 0..logits.len()
        invariant
            i == 0 ==> max_idx == 0 && max_val == i8::MIN,
            i > 0 ==> max_idx < i && max_val == logits@[max_idx as int],
            forall|j: int| 0 <= j < i ==> #[trigger] logits@[j] <= max_val,
            forall|j: int| 0 <= j < max_idx ==> #[trigger] logits@[j] < max_val,
    {
        let val = logits[i];
        if val > max_val {
            max_val = val;
            max_idx = i;
        }
    }
    max_idx
}

/// The state of a greedy decode of at most `SEQ` tokens.
///
/// `tokens[0]` is the start token; for `0 < i < next`, `tokens[i]` is the
/// argmax of the logits the model gave for `tokens[i - 1]`. Decoding stops
/// at `limit = min(max_len, SEQ)` tokens, or earlier when a step fails
/// (the model's context window is full).
pub struct GreedyDecoder<const SEQ: usize> {
    pub tokens: [usize; SEQ],
    pub next: usize,
    pub limit: usize,
    pub stopped: bool,
}

impl<const SEQ: usize> GreedyDecoder<SEQ> {
    /// The counters are consistent: positions `0 .. next` are decided and
    /// `next` never passes the end of `tokens`.
    pub open spec fn wf(self) -> bool {
        &&& 1 <= self.next <= SEQ
        &&& self.limit <= SEQ
        &&& (self.next <= self.limit || self.next == 1)
    }

    /// Decoding is over: a step failed or `limit` tokens are decided.
    pub open spec fn spec_done(self) -> bool {
        self.stopped || self.next >= self.limit
    }

    /// Start from `start_token` with room for `min(max_len, SEQ)` tokens;
    /// every other position holds 0.
    ///
    /// `SEQ > 0` is required: the start token is stored at index 0.
    pub fn start(start_token: usize, max_len: usize) -> (d: Self)
        requires
            SEQ > 0,
        ensures
            d.wf(),
            d.tokens[0] == start_token,
            forall|i: int| 1 <= i < SEQ ==> #[trigger] d.tokens[i] == 0,
            d.next == 1,
            d.limit == if max_len < SEQ {
                max_len
            } else {
                SEQ
            },
            !d.stopped,
    {
        let mut tokens = [0usize; SEQ];
        tokens[0] = start_token;
        let limit = if max_len < SEQ {
            max_len
        } else {
            SEQ
        };
        GreedyDecoder { tokens, next: 1, limit, stopped: false }
    }

    /// The token whose logits are needed next (the last decided one), or
    /// `None` when decoding is over.
    pub fn pending(&self) -> (t: Option<usize>)
        requires
            self.wf(),
        ensures
            self.spec_done() ==> t is None,
            !self.spec_done() ==> t == Some(self.tokens[self.next - 1]),
    {
        if self.stopped || self.next >= self.limit {
            None
        } else {
            Some(self.tokens[self.next - 1])
        }
    }

    /// Record the outcome of the pending step: logits decide the next
    /// token (their first argmax); a failed step ends decoding with the
    /// tokens decided so far.
    pub fn record<const VOCAB: usize>(&mut self, step: Result<[i8; VOCAB], KVCacheError>)
        requires
            old(self).wf(),
            !old(self).spec_done(),
        ensures
            final(self).wf(),
            final(self).limit == old(self).limit,
            match step {
                Ok(logits) => {
                    &&& !final(self).stopped
                    &&& final(self).next == old(self).next + 1
                    &&& is_first_argmax(logits@, final(self).tokens[old(self).next as int] as int)
                    &&& forall|i: int|
                        0 <= i < SEQ && i != old(self).next ==> #[trigger] final(self).tokens[i]
                            == old(self).tokens[i]
                },
                Err(_) => {
                    &&& final(self).stopped
                    &&& final(self).next == old(self).next
                    &&& final(self).tokens == old(self).tokens
                },
            },
    {
        match step {
            Ok(logits) => {
                let idx = argmax_logits(&logits);
                self.tokens[self.next] = idx;
                self.next = self.next + 1;
            },
            Err(_) => {
                self.stopped = true;
            },
        }
    }

    /// The decided tokens; positions not reached hold 0.
    pub fn tokens(&self) -> (t: [usize; SEQ])
        ensures
            t == self.tokens,
    {
        self.tokens
    }
}

} // verus!
