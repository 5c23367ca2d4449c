# matmul_engine

An integer matrix-multiplication engine with accumulator type separation
(`T × T → T::Accum`) and the INT8 quantized inference pipeline built on it,
written in Verus: every function under `src/` carries a contract that the
verifier proves.

## Layout

- `src/kernel/` — the widening kernels (`matmul_wide`, `dyn_matmul_wide`),
  the `WideAccum` trait, and laws: exact integer dot products, identity,
  static/dynamic agreement, `i8 → i32` never overflows for inner
  dimensions up to 131071.
- `src/matrix.rs`, `src/lib.rs` — stack and heap matrices, the homogeneous
  kernel `matmul`, and its agreement with the widening one.
- `src/quant/` — clamping and ReLU, fixed-point requantization
  (round-half-up shifts, multiplier/shift pairs from the bit pattern of an
  `f32` ratio), quantization parameters and tensors. Every `f32` the
  library stores is kept as its IEEE-754 bit pattern.
- `src/model/` — the `QMOD`, `QTRN` and `QMLP` binary formats: header
  parsing and serialization, a bounds-checked reader, and loaders whose
  contracts say exactly which error each malformed file gets.
- `src/nn/` — embedding lookup, linear layers (exact accumulators, fused
  ReLU, per-channel requantization), integer attention scores, residual
  additions, the two-layer pipeline.
- `src/runtime/` — the KV cache, greedy decoding decisions, SplitMix64,
  metrics counters.
- `src/testing/` — FNV-1a state checksums and an LCG for fuzzing.
- `app/` — what computes in floating point (RMSNorm, softmax, float-scaled
  layers, GPT forward passes, sampling), the wall clock, the WebAssembly
  bindings and a file-reading generation example.
- `tests/` — executable tests of the library.
