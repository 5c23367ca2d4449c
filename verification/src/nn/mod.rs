//! Quantized neural-network layers.

pub mod linear;
pub mod embedding;
pub mod pipeline;
pub mod attention;
pub mod transformer;
pub mod rmsnorm;
pub mod softmax;
pub mod gpt;

pub use embedding::QEmbedding;
pub use linear::QLinear;
pub use attention::QAttention;
pub use pipeline::TinyQModel;
pub use transformer::QTransformerBlock;
pub use rmsnorm::QRMSNorm;
pub use softmax::QSoftmax;
pub use gpt::{QMultiHeadAttention, QGPTBlock, QGPTModel};
