//! Counters for runtime observability.

use vstd::prelude::*;

verus! {

/// Metrics tracker for runtime observability.
#[derive(Debug, Default, Clone)]
pub struct RuntimeMetrics {
    pub tokens_generated: usize,
    pub cache_hits: usize,
    pub cache_misses: usize,
    pub max_activation: i32,
    pub softmax_calls: usize,
    pub attention_ops: usize,
    /// How often quantization hit the lower `i8` bound (-128).
    pub saturation_events_neg: usize,
    /// How often quantization hit the upper `i8` bound (127).
    pub saturation_events_pos: usize,
}

impl RuntimeMetrics {
    /// All counters at zero.
    pub fn new() -> (m: Self)
        ensures
            m.tokens_generated == 0,
            m.cache_hits == 0,
            m.cache_misses == 0,
            m.max_activation == 0,
            m.softmax_calls == 0,
            m.attention_ops == 0,
            m.saturation_events_neg == 0,
            m.saturation_events_pos == 0,
    {
        RuntimeMetrics {
            tokens_generated: 0,
            cache_hits: 0,
            cache_misses: 0,
            max_activation: 0,
            softmax_calls: 0,
            attention_ops: 0,
            saturation_events_neg: 0,
            saturation_events_pos: 0,
        }
    }

    /// Saturation recording is compiled out unless runtime debugging is
    /// enabled: in this build it leaves every counter unchanged.
    pub fn record_saturation(&mut self, _value: i32)
        ensures
            *final(self) == *old(self),
    {
    }

    /// Count a value that hit an `i8` bound: at or below -128 counts as a
    /// negative saturation, at or above 127 as a positive one, anything else
    /// changes nothing. This is what saturation recording does when runtime
    /// debugging is enabled.
    pub fn count_saturation(&mut self, value: i32)
        requires
            value <= -128 ==> old(self).saturation_events_neg < usize::MAX,
            value >= 127 ==> old(self).saturation_events_pos < usize::MAX,
        ensures
            final(self).saturation_events_neg == old(self).saturation_events_neg + if value <= -128 {
                1int
            } else {
                0int
            },
            final(self).saturation_events_pos == old(self).saturation_events_pos + if value >= 127 {
                1int
            } else {
                0int
            },
            final(self).tokens_generated == old(self).tokens_generated,
            final(self).cache_hits == old(self).cache_hits,
            final(self).cache_misses == old(self).cache_misses,
            final(self).max_activation == old(self).max_activation,
            final(self).softmax_calls == old(self).softmax_calls,
            final(self).attention_ops == old(self).attention_ops,
    {
        if value <= -128 {
            self.saturation_events_neg = self.saturation_events_neg + 1;
        } else if value >= 127 {
            self.saturation_events_pos = self.saturation_events_pos + 1;
        }
    }

    /// Count one generated token.
    pub fn record_token_generated(&mut self)
        requires
            old(self).tokens_generated < usize::MAX,
        ensures
            final(self).tokens_generated == old(self).tokens_generated + 1,
            final(self).cache_hits == old(self).cache_hits,
            final(self).cache_misses == old(self).cache_misses,
            final(self).max_activation == old(self).max_activation,
            final(self).softmax_calls == old(self).softmax_calls,
            final(self).attention_ops == old(self).attention_ops,
            final(self).saturation_events_neg == old(self).saturation_events_neg,
            final(self).saturation_events_pos == old(self).saturation_events_pos,
    {
        self.tokens_generated = self.tokens_generated + 1;
    }
}

} // verus!
