use matmul_engine::Matrix;
use matmul_engine::nn::QAttention;
use matmul_engine::quant::QTensor;
use matmul_engine::quant::QuantParams;
use matmul_engine::runtime::{argmax_logits, GreedyDecoder, KVCacheError, QKVCache};
use matmul_engine::nn::gpt::saturating_residual_add;
use matmul_engine::nn::rmsnorm::sum_sq_centered;
use matmul_engine::quant::clip::abs_max_i32;
use matmul_engine::runtime::metrics::RuntimeMetrics;
use matmul_engine::runtime::profiler::{DummyClock, RuntimeClock};
use matmul_engine::runtime::sampler::{argmax, DetRng};
use matmul_engine::testing::determinism::{rolling_checksum_i8, runtime_state_hash};
use matmul_engine::testing::fuzz::LcgRng;

fn one() -> u32 {
    1.0f32.to_bits()
}

// ── KV cache ─────────────────────────────────────────────────────────────────

#[test]
fn test_kv_cache_append() {
    let mut cache = QKVCache::<4, 2>::new();
    assert_eq!(cache.current_len(), 0);
    cache.append(&[1, 2], &[3, 4], one(), one()).unwrap();
    assert_eq!(cache.current_len(), 1);
    let keys = cache.get_active_keys();
    assert_eq!(keys.data[0], [1, 2]);
}

#[test]
fn test_kv_cache_bounds() {
    let mut cache = QKVCache::<2, 2>::new();
    cache.append(&[1, 2], &[3, 4], one(), one()).unwrap();
    cache.append(&[5, 6], &[7, 8], one(), one()).unwrap();
    let res = cache.append(&[9, 10], &[11, 12], one(), one());
    assert_eq!(res, Err(KVCacheError::CacheFull));
}

#[test]
fn test_kv_cache_reuse() {
    let mut cache = QKVCache::<4, 2>::new();
    cache.append(&[1, 2], &[3, 4], one(), one()).unwrap();
    cache.append(&[5, 6], &[7, 8], one(), one()).unwrap();
    let keys = cache.get_active_keys();
    assert_eq!(keys.data[0], [1, 2]);
    assert_eq!(keys.data[1], [5, 6]);
}

#[test]
fn test_cache_overflow_protection() {
    let mut cache = QKVCache::<128, 2>::new();
    for _ in 0..128 {
        cache.append(&[0, 0], &[0, 0], one(), one()).unwrap();
    }
    let result = cache.append(&[1, 1], &[1, 1], one(), one());
    assert_eq!(result, Err(KVCacheError::CacheFull));
}

#[test]
fn kv_cache_full_append_changes_nothing() {
    let mut cache = QKVCache::<1, 2>::new();
    cache.append(&[1, 2], &[3, 4], 0.5f32.to_bits(), 0.25f32.to_bits()).unwrap();
    assert!(cache.is_full());
    assert_eq!(cache.append(&[9, 9], &[9, 9], one(), one()), Err(KVCacheError::CacheFull));
    assert_eq!(cache.current_len(), 1);
    assert_eq!(cache.get_active_keys().data, [[1i8, 2]]);
    assert_eq!(cache.get_active_values().data, [[3i8, 4]]);
    assert_eq!(cache.key_scale, 0.5f32.to_bits());
    assert_eq!(cache.value_scale, 0.25f32.to_bits());
}

#[test]
fn kv_cache_reset_then_refill() {
    let mut cache = QKVCache::<2, 1>::new();
    cache.append(&[1], &[2], one(), one()).unwrap();
    cache.append(&[3], &[4], one(), one()).unwrap();
    assert!(cache.is_full());
    cache.reset();
    assert_eq!(cache.current_len(), 0);
    assert!(!cache.is_full());
    cache.append(&[5], &[6], one(), one()).unwrap();
    assert_eq!(cache.get_active_keys().data, [[5i8], [3]]);
    assert_eq!(cache.get_active_values().data, [[6i8], [4]]);
}

#[test]
fn incremental_scores_match_cached_keys() {
    let mut cache = QKVCache::<3, 2>::new();
    cache.append(&[1, 0], &[5, 5], one(), one()).unwrap();
    cache.append(&[0, 1], &[6, 6], one(), one()).unwrap();
    let q = QTensor::new(Matrix::<i8, 1, 2>::from_array([[2, 3]]), QuantParams::symmetric(one()));
    let scores = QAttention::<3, 2>::compute_scores_incremental(&q, &cache);
    assert_eq!(scores.data, [[2i32, 3, 0]]);
}

// ── Decoding ─────────────────────────────────────────────────────────────────

#[test]
fn argmax_takes_first_maximum() {
    assert_eq!(argmax_logits(&[3, -1, 9, 2, 9]), 2);
    assert_eq!(argmax_logits(&[-128, -128]), 0);
    assert_eq!(argmax_logits(&[]), 0);
    assert_eq!(argmax(&[3i8, -1, 9, 2, 8]), 2);
    assert_eq!(argmax(&[7i8, 7, 7]), 0);
}

// ── Deterministic generators ─────────────────────────────────────────────────

#[test]
fn rng_is_deterministic_across_instances() {
    let mut a = DetRng::new(42);
    let mut b = DetRng::new(42);
    for _ in 0..1000 {
        assert_eq!(a.next_u64(), b.next_u64());
    }
}

#[test]
fn splitmix_reference_values() {
    // SplitMix64 from seed 0: published reference outputs
    let mut r = DetRng::new(0);
    assert_eq!(r.next_u64(), 0xE220_A839_7B1D_CDAF);
    assert_eq!(r.next_u64(), 0x6E78_9E6A_A1B9_65F4);
    assert_eq!(r.next_u64(), 0x06C4_5D18_8009_454F);
}

#[test]
fn test_tensor_memory_invariants() {
    let mut rng = LcgRng::new(42);
    let mat = rng.fill_matrix_i8::<4, 4>();
    let row_major = true;
    for r in 0..4 {
        for c in 0..4 {
            if mat.data[r][c] == 0 {}
        }
    }
    assert!(row_major);
}

#[test]
fn lcg_steps_and_fill_order() {
    let mut a = LcgRng::new(7);
    let s1 = a.next_u32();
    assert_eq!(s1, 7u32.wrapping_mul(1664525).wrapping_add(1013904223));
    let s2 = a.next_u32();
    assert_eq!(s2, s1.wrapping_mul(1664525).wrapping_add(1013904223));
    let mut b = LcgRng::new(7);
    let m = b.fill_matrix_i8::<1, 2>();
    assert_eq!(m.data, [[s1 as i8, s2 as i8]]);
    let mut c = LcgRng::new(7);
    c.next_u8();
    assert_eq!(c.next_i8(), s2 as i8);
}

// ── Checksums ────────────────────────────────────────────────────────────────

#[test]
fn fnv1a_reference_values() {
    assert_eq!(rolling_checksum_i8(&[]), 0x811C_9DC5);
    // FNV-1a of "a"
    assert_eq!(rolling_checksum_i8(&[b'a' as i8]), 0xE40C_292C);
    // FNV-1a of "foobar"
    let foobar: Vec<i8> = b"foobar".iter().map(|&x| x as i8).collect();
    assert_eq!(rolling_checksum_i8(&foobar), 0xBF9C_F968);
}

#[test]
fn state_hash_covers_valid_region_then_logits() {
    let mut cache = QKVCache::<4, 2>::new();
    cache.append(&[1, 2], &[3, 4], one(), one()).unwrap();
    // interleaved k, v per channel, then logits
    let h = runtime_state_hash(&cache, &[9]);
    assert_eq!(h, rolling_checksum_i8(&[1, 3, 2, 4, 9]));
    // identical states hash identically; rows past current_len are ignored
    let mut other = QKVCache::<4, 2>::new();
    other.append(&[1, 2], &[3, 4], one(), one()).unwrap();
    other.keys.data[3] = [100, 100];
    assert_eq!(runtime_state_hash(&other, &[9]), h);
    other.append(&[0, 0], &[0, 0], one(), one()).unwrap();
    assert_ne!(runtime_state_hash(&other, &[9]), h);
}

// ── Metrics and clocks ───────────────────────────────────────────────────────

#[test]
fn metrics_counters() {
    let mut m = RuntimeMetrics::new();
    assert_eq!(m.tokens_generated, 0);
    m.record_token_generated();
    m.record_token_generated();
    m.record_saturation(127);
    m.record_saturation(-128);
    assert_eq!(m.tokens_generated, 2);
    assert_eq!(m.saturation_events_pos, 0);
    assert_eq!(m.saturation_events_neg, 0);
    assert_eq!(m.cache_hits, 0);
}

#[test]
fn dummy_clock_is_zero() {
    assert_eq!(DummyClock::now_ticks(), 0);
}

// ── Greedy decoding decisions ────────────────────────────────────────────────

#[test]
fn greedy_decoder_runs_until_limit() {
    let mut d = GreedyDecoder::<5>::start(3, 4);
    assert_eq!(d.limit, 4);
    let mut fed = Vec::new();
    while let Some(t) = d.pending() {
        fed.push(t);
        // a "model" whose logits peak at (token + 1) % 4
        let mut logits = [0i8; 4];
        logits[(t + 1) % 4] = 9;
        d.record(Ok::<[i8; 4], KVCacheError>(logits));
    }
    assert_eq!(fed, vec![3, 0, 1]);
    assert_eq!(d.tokens(), [3, 0, 1, 2, 0]);
}

#[test]
fn greedy_decoder_stops_on_full_cache() {
    let mut d = GreedyDecoder::<6>::start(1, 100);
    assert_eq!(d.limit, 6);
    d.record(Ok::<[i8; 3], KVCacheError>([5, 7, 7]));
    assert_eq!(d.pending(), Some(1));
    d.record(Err::<[i8; 3], KVCacheError>(KVCacheError::CacheFull));
    assert_eq!(d.pending(), None);
    assert_eq!(d.tokens(), [1, 1, 0, 0, 0, 0]);
    let empty = GreedyDecoder::<2>::start(9, 0);
    assert_eq!(empty.pending(), None);
    assert_eq!(empty.tokens(), [9, 0]);
}

#[test]
fn residual_abs_max_and_sum_of_squares() {
    let m = Matrix::from_array([[3i32, -700], [12, 0]]);
    assert_eq!(abs_max_i32(&m), 700);
    assert_eq!(abs_max_i32(&Matrix::<i32, 0, 3>::zeros()), 0);
    assert_eq!(sum_sq_centered(&[1i8, -2, 3], 0), 14);
    assert_eq!(sum_sq_centered(&[1i8, -2, 3], 1), 0 + 9 + 4);
    let mut x = Matrix::from_array([[i32::MAX - 1, 5], [i32::MIN + 2, -5]]);
    let y = Matrix::from_array([[10i32, 5], [-10, 5]]);
    saturating_residual_add(&mut x, &y);
    assert_eq!(x.data, [[i32::MAX, 10], [i32::MIN, 0]]);
}

/// Incremental scores against cached keys equal the full attention scores.
#[test]
fn incremental_scores_equal_full_scores() {
    let params = QuantParams::symmetric(one());
    let qm = Matrix::<i8, 3, 2>::from_array([[1, 1], [2, 2], [-7, 120]]);
    let km = Matrix::<i8, 3, 2>::from_array([[1, 0], [0, 1], [-128, 127]]);
    let full = QAttention::<3, 2>::compute_scores(&QTensor::new(qm, params), &QTensor::new(km, params));
    let mut cache = QKVCache::<3, 2>::new();
    for t in 0..3 {
        cache.append(&km.data[t], &[0, 0], one(), one()).unwrap();
        for i in 0..3 {
            let q = QTensor::new(Matrix::<i8, 1, 2>::from_array([qm.data[i]]), params);
            let inc = QAttention::<3, 2>::compute_scores_incremental(&q, &cache);
            for u in 0..=t {
                assert_eq!(inc.data[0][u], full.data[i][u]);
            }
        }
    }
}

#[test]
fn saturation_counting() {
    let mut m = RuntimeMetrics::new();
    m.count_saturation(-128);
    m.count_saturation(-1000);
    m.count_saturation(127);
    m.count_saturation(5);
    assert_eq!(m.saturation_events_neg, 2);
    assert_eq!(m.saturation_events_pos, 1);
    assert_eq!(m.tokens_generated, 0);
}
