//! Low-level compute kernels.

pub mod accum;
pub mod static_wide;
pub mod dyn_wide;
