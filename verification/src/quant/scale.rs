//! # Scale management
//!
//! [`QuantParams`] gives a raw integer tensor its real meaning:
//! `real = (q - zero_point) × scale`.
//!
//! - **Affine (asymmetric)**: `zero_point ≠ 0`, covering asymmetric float
//!   ranges such as ReLU outputs.
//! - **Symmetric**: `zero_point = 0`; preferred for weights.
//!
//! ## Floats as bit patterns
//!
//! The integer pipeline never computes with a scale; it only carries scales
//! from the layer that produced a tensor to the layer that reads it. Every
//! `f32` value (scales, RMSNorm weights, epsilons) is therefore carried in
//! this library as its IEEE-754 bit pattern, a `u32` (`f32::to_bits`), and
//! the float arithmetic on them happens outside the library.

use vstd::prelude::*;
use vstd::arithmetic::power2::*;

verus! {

/// Bit pattern of `1.0f32`.
pub const ONE_F32_BITS: u32 = 0x3F80_0000;

/// Bit pattern of `1e-5f32`, the RMSNorm epsilon used by the loaders.
pub const RMS_EPS_F32_BITS: u32 = 0x3727_C5AC;

/// Quantization parameters for a tensor: `real = (raw - zero_point) × scale`.
#[derive(Clone, Copy, PartialEq, Eq, Debug)]
pub struct QuantParams {
    /// Floating-point step between adjacent quantized values (> 0), as the
    /// bit pattern of an `f32`.
    pub scale: u32,
    /// Quantized value that represents float zero (0 when symmetric).
    pub zero_point: i32,
}

impl QuantParams {
    /// Symmetric quantization: `zero_point = 0`.
    pub fn symmetric(scale: u32) -> (p: Self)
        ensures
            p.scale == scale,
            p.zero_point == 0,
    {
        QuantParams { scale, zero_point: 0 }
    }

    /// Asymmetric (affine) quantization with an explicit zero-point.
    pub fn affine(scale: u32, zero_point: i32) -> (p: Self)
        ensures
            p.scale == scale,
            p.zero_point == zero_point,
    {
        QuantParams { scale, zero_point }
    }

    /// Returns `true` exactly when this is symmetric (`zero_point == 0`).
    pub fn is_symmetric(&self) -> (b: bool)
        ensures
            b == (self.zero_point == 0),
    {
        self.zero_point == 0
    }
}

/// `floor(log2(m))` for `1 <= m <= 128`.
pub open spec fn floor_log2_small(m: int) -> nat {
    if m >= 128 {
        7
    } else if m >= 64 {
        6
    } else if m >= 32 {
        5
    } else if m >= 16 {
        4
    } else if m >= 8 {
        3
    } else if m >= 4 {
        2
    } else if m >= 2 {
        1
    } else {
        0
    }
}

/// IEEE-754 single-precision encoding of the integer `v` (`|v| <= 128`):
/// sign bit, biased exponent `127 + e` with `e = floor(log2 |v|)`, and the
/// bits of `|v|` below its leading one, left-aligned in the 23-bit fraction.
pub open spec fn f32_bits_of_small_int(v: int) -> int {
    if v == 0 {
        0
    } else {
        let m = if v < 0 {
            -v
        } else {
            v
        };
        let e = floor_log2_small(m);
        (if v < 0 {
            0x8000_0000int
        } else {
            0
        }) + (127 + e) * 0x80_0000 + (m - pow2(e)) * pow2((23 - e) as nat)
    }
}

/// Bit pattern of `v as f32` (the conversion is exact for every `i8`).
pub fn i8_to_f32_bits(v: i8) -> (bits: u32)
    ensures
        bits as int == f32_bits_of_small_int(v as int),
{
    if v == 0 {
        return 0;
    }
    let m: u32 = if v < 0 {
        (-(v as i32)) as u32
    } else {
        v as u32
    };
    let sign: u32 = if v < 0 {
        0x8000_0000
    } else {
        0
    };
    // (e, 2^e, 2^(23 - e))
    let (e, low, frac_scale): (u32, u32, u32) = if m >= 128 {
        (7, 128, 0x1_0000)
    } else if m >= 64 {
        (6, 64, 0x2_0000)
    } else if m >= 32 {
        (5, 32, 0x4_0000)
    } else if m >= 16 {
        (4, 16, 0x8_0000)
    } else if m >= 8 {
        (3, 8, 0x10_0000)
    } else if m >= 4 {
        (2, 4, 0x20_0000)
    } else if m >= 2 {
        (1, 2, 0x40_0000)
    } else {
        (0, 1, 0x80_0000)
    };
    proof {
        lemma2_to64();
        assert(e == floor_log2_small(m as int));
        assert(low == pow2(e as nat));
        assert(frac_scale == pow2((23 - e) as nat));
        assert(low * frac_scale == 0x80_0000) by (nonlinear_arith)
            requires
                (low == 128 && frac_scale == 0x1_0000) || (low == 64 && frac_scale == 0x2_0000) || (
                low == 32 && frac_scale == 0x4_0000) || (low == 16 && frac_scale == 0x8_0000) || (
                low == 8 && frac_scale == 0x10_0000) || (low == 4 && frac_scale == 0x20_0000) || (
                low == 2 && frac_scale == 0x40_0000) || (low == 1 && frac_scale == 0x80_0000),
        ;
        assert((m - low) * frac_scale < 0x80_0000) by (nonlinear_arith)
            requires
                low <= m < 2 * low,
                low * frac_scale == 0x80_0000,
        ;
    }
    sign + (127 + e) * 0x80_0000 + (m - low) * frac_scale
}

} // verus!
