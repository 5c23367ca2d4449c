//! Inference runtime: KV cache, decoding, metrics, deterministic RNG.

pub mod decode;
pub mod kv_cache;
pub mod metrics;
pub mod profiler;
pub mod sampler;

pub use decode::{argmax_logits, GreedyDecoder};
pub use kv_cache::{QKVCache, KVCacheError};
