//! Model file formats and loaders.

pub mod format;
pub mod tensor;
pub mod loader;

pub use format::{QModelHeader, QTransformerHeader, ModelLoadError};
pub use loader::{QModel, expected_model_size, load_from_bytes, load_transformer_from_bytes, load_mlp_from_bytes, BinaryLoadable};
