//! # QTensor — quantized tensor with semantic meaning
//!
//! A raw `Matrix<i8, R, C>` is just bits; a `QTensor` also knows what they
//! mean: `real[r][c] = (data[r][c] - zero_point) × scale`.
//!
//! The storage type `T` is generic: `i8` for activations and weights, `i32`
//! for accumulators, `i16` for mid-precision DSP data.

use vstd::prelude::*;
use crate::matrix::Matrix;
use crate::quant::scale::QuantParams;

verus! {

/// A quantized tensor: integer matrix + quantization parameters.
#[derive(Clone, Copy, PartialEq, Debug)]
pub struct QTensor<T, const R: usize, const C: usize> where T: Copy + Default {
    /// Raw quantized values, row-major.
    pub data: Matrix<T, R, C>,
    /// Scale and zero-point that map raw integers to real values.
    pub params: QuantParams,
}

impl<T: Copy + Default, const R: usize, const C: usize> QTensor<T, R, C> {
    /// Wrap an existing `Matrix` with quantization params.
    pub fn new(data: Matrix<T, R, C>, params: QuantParams) -> (t: Self)
        ensures
            t.data == data,
            t.params == params,
    {
        QTensor { data, params }
    }

    /// A tensor filled with `T::default()` (zero for every integer type).
    pub fn zeros(params: QuantParams) -> (t: Self)
        ensures
            t.params == params,
            forall|r: int, c: int|
                0 <= r < R && 0 <= c < C ==> call_ensures(
                    T::default,
                    (),
                    #[trigger] t.data.data[r][c],
                ),
    {
        QTensor { data: Matrix::zeros(), params }
    }

    /// Create from a 2-D array literal.
    pub fn from_array(raw: [[T; C]; R], params: QuantParams) -> (t: Self)
        ensures
            t.data.data == raw,
            t.params == params,
    {
        QTensor { data: Matrix::from_array(raw), params }
    }

    /// Raw integer at `(row, col)`.
    pub fn raw(&self, row: usize, col: usize) -> (v: T)
        requires
            row < R,
            col < C,
        ensures
            v == self.data.data[row as int][col as int],
    {
        self.data.get(row, col)
    }

    /// Number of rows.
    pub fn rows(&self) -> (n: usize)
        ensures
            n == R,
    {
        R
    }

    /// Number of columns.
    pub fn cols(&self) -> (n: usize)
        ensures
            n == C,
    {
        C
    }

    /// The scale, as the bit pattern of an `f32`.
    pub fn scale(&self) -> (s: u32)
        ensures
            s == self.params.scale,
    {
        self.params.scale
    }

    /// The zero-point.
    pub fn zero_point(&self) -> (z: i32)
        ensures
            z == self.params.zero_point,
    {
        self.params.zero_point
    }
}

} // verus!
