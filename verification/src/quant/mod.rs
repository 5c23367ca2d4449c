//! # Quantization pipeline
//!
//! ```text
//! QTensor<i8, R, K>  ×  QTensor<i8, K, C>
//!    │  kernel::matmul_wide  (i8 × i8 → i32)
//!    ▼
//! Matrix<i32, R, C>           ← accumulator, scale = s_a × s_b
//!    │  clip::apply_relu_i32  (optional fused activation)
//!    │  requant::requantize_matrix  (i32 → i8, integer multiply-shift)
//!    ▼
//! QTensor<i8, R, C>           ← output, scale = s_out
//! ```

pub mod clip;
pub mod qtensor;
pub mod requant;
pub mod scale;

pub use clip::{Clamp, apply_relu, apply_relu6, apply_relu_i32, clamp_i8, clamp_i16};
pub use requant::{RequantShift, requantize_matrix};
pub use scale::QuantParams;
pub use qtensor::QTensor;
