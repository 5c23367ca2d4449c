//! Fixed-capacity INT8 key/value cache for incremental attention.

use vstd::prelude::*;
use crate::matrix::Matrix;
use crate::quant::scale::ONE_F32_BITS;

verus! {

/// Why an append was refused.
#[derive(Debug, PartialEq, Eq)]
pub enum KVCacheError {
    CacheFull,
}

/// Keys and values of the first `current_len` positions, in rows
/// `0 .. current_len` of `keys` / `values`, with the scales (as `f32` bit
/// patterns) of the most recent append.
pub struct QKVCache<const MAX_SEQ: usize, const DIM: usize> {
    pub keys: Matrix<i8, MAX_SEQ, DIM>,
    pub values: Matrix<i8, MAX_SEQ, DIM>,
    pub key_scale: u32,
    pub value_scale: u32,
    pub current_len: usize,
}

impl<const MAX_SEQ: usize, const DIM: usize> QKVCache<MAX_SEQ, DIM> {
    /// `next` is this cache after a successful append of `key` / `value`
    /// with scales `ks` / `vs`: there was room, row `current_len` of the
    /// storage holds the new position, every other row is unchanged, the
    /// scales are replaced and the length grows by one.
    pub open spec fn appended(
        self,
        next: Self,
        key: [i8; DIM],
        value: [i8; DIM],
        ks: u32,
        vs: u32,
    ) -> bool {
        &&& self.current_len < MAX_SEQ
        &&& next.current_len == self.current_len + 1
        &&& next.key_scale == ks
        &&& next.value_scale == vs
        &&& forall|t: int, d: int|
            0 <= t < MAX_SEQ && 0 <= d < DIM ==> #[trigger] next.keys.data[t][d] == if t
                == self.current_len {
                key[d]
            } else {
                self.keys.data[t][d]
            }
        &&& forall|t: int, d: int|
            0 <= t < MAX_SEQ && 0 <= d < DIM ==> #[trigger] next.values.data[t][d] == if t
                == self.current_len {
                value[d]
            } else {
                self.values.data[t][d]
            }
    }

    /// An empty cache: zeroed storage, unit scales.
    pub fn new() -> (c: Self)
        ensures
            c.current_len == 0,
            c.key_scale == ONE_F32_BITS,
            c.value_scale == ONE_F32_BITS,
            forall|r: int, d: int|
                0 <= r < MAX_SEQ && 0 <= d < DIM ==> #[trigger] c.keys.data[r][d] == 0 && c.values.data[r][d]
                    == 0,
    {
        QKVCache {
            keys: Matrix::zeros(),
            values: Matrix::zeros(),
            key_scale: ONE_F32_BITS,
            value_scale: ONE_F32_BITS,
            current_len: 0,
        }
    }

    /// Append one position.
    ///
    /// When the cache is full it is left unchanged and `CacheFull` is
    /// returned. Otherwise row `current_len` of `keys` / `values` receives
    /// `key` / `value`, the scales are replaced, and the length grows by one;
    /// every other row is unchanged.
    pub fn append(&mut self, key: &[i8; DIM], value: &[i8; DIM], k_scale: u32, v_scale: u32) -> (r:
        Result<(), KVCacheError>)
        ensures
            old(self).current_len >= MAX_SEQ ==> r == Err::<(), KVCacheError>(KVCacheError::CacheFull)
                && *final(self) == *old(self),
            old(self).current_len < MAX_SEQ ==> r == Ok::<(), KVCacheError>(()) && old(self).appended(
                *final(self),
                *key,
                *value,
                k_scale,
                v_scale,
            ),
    {
        if self.is_full() {
            return Err(KVCacheError::CacheFull);
        }
        let idx = self.current_len;
        for i in 0..DIM
            invariant
                idx == old(self).current_len,
                idx < MAX_SEQ,
                self.current_len == old(self).current_len,
                self.key_scale == old(self).key_scale,
                self.value_scale == old(self).value_scale,
                forall|t: int, d: int|
                    0 <= t < MAX_SEQ && 0 <= d < DIM ==> #[trigger] self.keys.data[t][d] == if t == idx
                        && d < i {
                        key[d]
                    } else {
                        old(self).keys.data[t][d]
                    },
                forall|t: int, d: int|
                    0 <= t < MAX_SEQ && 0 <= d < DIM ==> #[trigger] self.values.data[t][d] == if t
                        == idx && d < i {
                        value[d]
                    } else {
                        old(self).values.data[t][d]
                    },
        {
            self.keys.data[idx][i] = key[i];
            self.values.data[idx][i] = value[i];
        }
        self.key_scale = k_scale;
        self.value_scale = v_scale;
        self.current_len = self.current_len + 1;
        Ok(())
    }

    /// Number of cached positions.
    pub fn current_len(&self) -> (n: usize)
        ensures
            n == self.current_len,
    {
        self.current_len
    }

    /// No further position fits.
    pub fn is_full(&self) -> (b: bool)
        ensures
            b == (self.current_len >= MAX_SEQ),
    {
        self.current_len >= MAX_SEQ
    }

    /// Forget every cached position; the storage and scales are kept.
    pub fn reset(&mut self)
        ensures
            final(self).current_len == 0,
            final(self).keys == old(self).keys,
            final(self).values == old(self).values,
            final(self).key_scale == old(self).key_scale,
            final(self).value_scale == old(self).value_scale,
    {
        self.current_len = 0;
    }

    /// A copy of the whole key storage.
    pub fn get_active_keys(&self) -> (k: Matrix<i8, MAX_SEQ, DIM>)
        ensures
            k == self.keys,
    {
        self.keys
    }

    /// A copy of the whole value storage.
    pub fn get_active_values(&self) -> (v: Matrix<i8, MAX_SEQ, DIM>)
        ensures
            v == self.values,
    {
        self.values
    }
}

/// Successive appends to an empty cache stack up in order: after `n`
/// successful appends the cache holds `n` positions, and row `i` of its key
/// and value storage is the `i`-th appended key and value (so reading the
/// cache back gives what was written, and at most `MAX_SEQ` appends can
/// succeed).
pub proof fn lemma_appends_stack_in_order<const MAX_SEQ: usize, const DIM: usize>(
    caches: Seq<QKVCache<MAX_SEQ, DIM>>,
    keys: Seq<[i8; DIM]>,
    values: Seq<[i8; DIM]>,
    key_scales: Seq<u32>,
    value_scales: Seq<u32>,
)
    requires
        caches.len() == keys.len() + 1,
        values.len() == keys.len(),
        key_scales.len() == keys.len(),
        value_scales.len() == keys.len(),
        caches[0].current_len == 0,
        forall|i: int|
            0 <= i < keys.len() ==> #[trigger] caches[i].appended(
                caches[i + 1],
                keys[i],
                values[i],
                key_scales[i],
                value_scales[i],
            ),
    ensures
        caches.last().current_len == keys.len(),
        keys.len() <= MAX_SEQ,
        forall|i: int, d: int|
            0 <= i < keys.len() && 0 <= d < DIM ==> #[trigger] caches.last().keys.data[i][d]
                == keys[i][d] && caches.last().values.data[i][d] == values[i][d],
    decreases keys.len(),
{
    let n = keys.len() as int;
    if n > 0 {
        let prev = caches.drop_last();
        lemma_appends_stack_in_order(
            prev,
            keys.drop_last(),
            values.drop_last(),
            key_scales.drop_last(),
            value_scales.drop_last(),
        );
        assert(caches[n - 1].appended(caches[n], keys[n - 1], values[n - 1], key_scales[n - 1], value_scales[n - 1]));
        assert(prev.last() == caches[n - 1]);
        assert forall|i: int, d: int| 0 <= i < n && 0 <= d < DIM implies #[trigger] caches.last().keys.data[i][d]
            == keys[i][d] && caches.last().values.data[i][d] == values[i][d] by {
            if i < n - 1 {
                assert(prev.last().keys.data[i][d] == keys.drop_last()[i][d]);
                assert(prev.last().values.data[i][d] == values.drop_last()[i][d]);
            }
        }
    }
}

} // verus!
