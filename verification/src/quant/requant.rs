//! # Requantization
//!
//! After `matmul_wide` the accumulator is `i32` at scale `s_a × s_b`. This
//! module converts it back to a narrow type at the output scale `s_out`
//! with integer arithmetic only, as CMSIS-NN and TFLite Micro do:
//!
//! ```text
//! scale_ratio   = (s_a × s_b) / s_out  = mantissa × 2^exponent, mantissa ∈ [0.5, 1)
//! multiplier    = mantissa × 2^31                  ∈ [2^30, 2^31)
//! shift         = 31 − exponent                    (clamped to [0, 62])
//! requantized   = clamp(round_half_up((acc × multiplier) / 2^shift), T::MIN, T::MAX)
//! ```
//!
//! The float scale ratio enters only through its IEEE-754 bit pattern
//! ([`RequantShift::from_ratio_bits`]); everything here is integer.

use vstd::prelude::*;
use vstd::arithmetic::power2::*;
use vstd::arithmetic::div_mod::*;
use crate::matrix::Matrix;
use crate::quant::clip::{Clamp, clamp_int};

verus! {

// ─────────────────────────────────────────────────────────────────────────────
// Integer facts about shifts
// ─────────────────────────────────────────────────────────────────────────────

/// `x` divided by `2^s`, rounding halves up: `floor((x + 2^(s-1)) / 2^s)`
/// (and `x` itself for `s == 0`).
pub open spec fn round_shift(x: int, s: nat) -> int {
    if s == 0 {
        x
    } else {
        (x + pow2((s - 1) as nat)) / (pow2(s) as int)
    }
}

/// Shifting right by `s > 0` with the added half rounds to the nearest
/// multiple, halves up: `round_shift(x, s) × 2^s` lies in
/// `(x − 2^(s-1), x + 2^(s-1)]`.
pub proof fn lemma_round_shift_is_nearest(x: int, s: nat)
    requires
        s > 0,
    ensures
        round_shift(x, s) * pow2(s) - pow2((s - 1) as nat) <= x,
        x < round_shift(x, s) * pow2(s) + pow2((s - 1) as nat),
{
    let h = pow2((s - 1) as nat) as int;
    let p = pow2(s) as int;
    lemma_pow2_unfold(s);
    lemma_pow2_pos((s - 1) as nat);
    assert(p == 2 * h);
    lemma_fundamental_div_mod(x + h, p);
    lemma_mod_bound(x + h, p);
    let r = (x + h) / p;
    assert(round_shift(x, s) == r);
    assert(r * p == p * r) by (nonlinear_arith);
}

/// Floor division composes: `(x / c) / d == x / (c * d)` for positive
/// divisors, whatever the sign of `x`.
proof fn lemma_floor_div_div(x: int, c: int, d: int)
    requires
        c > 0,
        d > 0,
    ensures
        (x / c) / d == x / (c * d),
{
    let q1 = x / c;
    let r1 = x % c;
    let q2 = q1 / d;
    let r2 = q1 % d;
    lemma_fundamental_div_mod(x, c);
    lemma_fundamental_div_mod(q1, d);
    lemma_mod_bound(x, c);
    lemma_mod_bound(q1, d);
    assert(x == q2 * (c * d) + (r2 * c + r1) && 0 <= r2 * c + r1 < c * d) by (nonlinear_arith)
        requires
            x == c * q1 + r1,
            q1 == d * q2 + r2,
            0 <= r1 < c,
            0 <= r2 < d,
            c > 0,
            d > 0,
    ;
    lemma_fundamental_div_mod_converse(x, c * d, q2, r2 * c + r1);
}

/// Arithmetic right shift of an `i64` is floor division by `2^s`.
pub proof fn lemma_i64_shr_is_floor_div(x: i64, s: u32)
    requires
        s < 64,
    ensures
        (x >> s) as int == (x as int) / (pow2(s as nat) as int),
    decreases s,
{
    if s == 0 {
        assert(x >> 0u32 == x) by (bit_vector);
        lemma2_to64();
        assert((x as int) / 1 == x as int);
    } else {
        let t = (s - 1) as u32;
        assert(x >> s == (x >> t) >> 1u32) by (bit_vector)
            requires
                t < 63,
                s == t + 1,
        ;
        lemma_i64_shr_is_floor_div(x, t);
        let y = x >> t;
        assert(2 * (y >> 1u32) + (y & 1) == y && 0 <= (y & 1) <= 1) by (bit_vector);
        lemma_fundamental_div_mod_converse(y as int, 2, (y >> 1u32) as int, (y & 1) as int);
        lemma_pow2_pos(t as nat);
        lemma_floor_div_div(x as int, pow2(t as nat) as int, 2);
        lemma_pow2_unfold(s as nat);
        assert((y >> 1u32) as int == (y as int) / 2);
        assert(y as int == (x as int) / (pow2(t as nat) as int));
        assert(pow2(s as nat) == pow2(t as nat) * 2);
        assert((x >> s) as int == (y >> 1u32) as int);
        assert((x >> s) as int == ((x as int) / (pow2(t as nat) as int)) / 2);
        assert((x >> s) as int == (x as int) / (pow2(s as nat) as int));
    }
}

/// `1i64 << t == 2^t` for `t < 63`.
pub proof fn lemma_i64_one_shl(t: u32)
    requires
        t < 63,
    ensures
        (1i64 << t) as int == pow2(t as nat),
    decreases t,
{
    if t == 0 {
        assert(1i64 << 0u32 == 1i64) by (bit_vector);
        lemma2_to64();
    } else {
        let u = (t - 1) as u32;
        assert(1i64 << t == (1i64 << u) * 2) by (bit_vector)
            requires
                u < 62,
                t == u + 1,
        ;
        lemma_i64_one_shl(u);
        lemma_pow2_unfold(t as nat);
    }
}

/// `2^s` for `s <= 62` fits comfortably in an `i64`.
proof fn lemma_pow2_le_62(s: nat)
    requires
        s <= 62,
    ensures
        0 < pow2(s) <= 0x4000_0000_0000_0000,
{
    lemma_pow2_pos(s);
    lemma2_to64_rest();
    if s < 62 {
        lemma_pow2_strictly_increases(s, 62);
    }
}

// ─────────────────────────────────────────────────────────────────────────────
// RequantShift
// ─────────────────────────────────────────────────────────────────────────────

/// Precomputed integer multiplier + right-shift for requantization.
///
/// - `multiplier` — fixed-point scale ratio in Q31 format
/// - `shift`      — total right-shift applied after the multiply
#[derive(Clone, Copy, PartialEq, Eq, Debug)]
pub struct RequantShift {
    /// Fixed-point multiplier (Q31).
    pub multiplier: i32,
    /// Right-shift applied after multiply.
    pub shift: u8,
}

/// Exponent field of an `f32` bit pattern.
pub open spec fn f32_exp_field(bits: u32) -> int {
    ((bits >> 23u32) & 0xFFu32) as int
}

/// Fraction field of an `f32` bit pattern.
pub open spec fn f32_fraction(bits: u32) -> int {
    (bits & 0x007F_FFFFu32) as int
}

/// The pattern encodes `+0.0` or `-0.0`.
pub open spec fn f32_is_zero(bits: u32) -> bool {
    bits & 0x7FFF_FFFFu32 == 0
}

/// Exponent `e` of `frexp(x) = (m, e)`, `x = m × 2^e`, `m ∈ [0.5, 1)`.
pub open spec fn frexp_exponent(bits: u32) -> int {
    if f32_is_zero(bits) {
        0
    } else {
        f32_exp_field(bits) - 126
    }
}

/// `round(m × 2^31)` for the mantissa `m` of `frexp`: the 24-bit
/// significand (implicit bit set) scaled by `2^7`, or 0 for a zero ratio.
pub open spec fn ratio_multiplier(bits: u32) -> int {
    if f32_is_zero(bits) {
        0
    } else {
        (f32_fraction(bits) + 0x80_0000) * 128
    }
}

/// Split an `f32` (given by its bit pattern) into `(mantissa, exponent)`
/// with `x = mantissa × 2^exponent` and `mantissa ∈ [0.5, 1)`, like C's
/// `frexp`. The mantissa is returned as an `f32` bit pattern whose exponent
/// field is 126; the sign is dropped. Zero gives `(0.0, 0)`.
pub fn frexp_bits(bits: u32) -> (r: (u32, i32))
    ensures
        f32_is_zero(bits) ==> r.0 == 0 && r.1 == 0,
        !f32_is_zero(bits) ==> r.0 == (bits & 0x007F_FFFFu32) | 0x3F00_0000u32,
        r.1 as int == frexp_exponent(bits),
{
    if bits & 0x7FFF_FFFF == 0 {
        return (0, 0);
    }
    proof {
        assert((bits >> 23u32) & 0xFFu32 <= 255) by (bit_vector);
    }
    let exp_bits = ((bits >> 23) & 0xFF) as i32;
    let exp = exp_bits - 126;
    let mantissa_bits = (bits & 0x007F_FFFF) | 0x3F00_0000;
    (mantissa_bits, exp)
}

impl RequantShift {
    /// Construct from the `f32` bit pattern of a ratio `(s_a × s_b) / s_out`.
    ///
    /// `multiplier = round(mantissa × 2^31)` (exact: the mantissa has 24
    /// significant bits), `shift = clamp(31 − exponent, 0, 62)`. For any
    /// non-zero ratio the multiplier lies in `[2^30, 2^31)`, the range that
    /// maximises precision.
    pub fn from_ratio_bits(bits: u32) -> (rs: Self)
        ensures
            rs.multiplier as int == ratio_multiplier(bits),
            rs.shift as int == clamp_int(31 - frexp_exponent(bits), 0, 62),
            !f32_is_zero(bits) ==> 0x4000_0000 <= rs.multiplier,
    {
        let (mantissa_bits, exponent) = frexp_bits(bits);
        let multiplier: i32 = if mantissa_bits == 0 {
            0
        } else {
            let significand = (mantissa_bits & 0x007F_FFFF) | 0x0080_0000;
            proof {
                assert(significand <= 0x00FF_FFFF) by (bit_vector)
                    requires
                        significand == (mantissa_bits & 0x007F_FFFFu32) | 0x0080_0000u32,
                ;
                assert(significand as int == f32_fraction(bits) + 0x80_0000) by (bit_vector)
                    requires
                        significand == (mantissa_bits & 0x007F_FFFFu32) | 0x0080_0000u32,
                        mantissa_bits == (bits & 0x007F_FFFFu32) | 0x3F00_0000u32,
                ;
            }
            (significand * 128) as i32
        };
        proof {
            if !f32_is_zero(bits) {
                assert(mantissa_bits != 0) by (bit_vector)
                    requires
                        mantissa_bits == (bits & 0x007F_FFFFu32) | 0x3F00_0000u32,
                ;
            }
            assert(0 <= f32_exp_field(bits) <= 255) by (bit_vector);
        }
        let e = 31i32 - exponent;
        let shift: u8 = if e < 0 {
            0
        } else if e > 62 {
            62
        } else {
            e as u8
        };
        RequantShift { multiplier, shift }
    }

    /// The inputs on which [`RequantShift::apply`] is defined: a shift in
    /// `[1, 63]` (`shift - 1` is computed on a `u8` and an `i64` is shifted
    /// by it) and no `i64` overflow when adding the rounding term.
    pub open spec fn can_apply(self, acc: int) -> bool {
        &&& 1 <= self.shift <= 63
        &&& acc * self.multiplier + pow2((self.shift - 1) as nat) <= i64::MAX
    }

    /// What [`RequantShift::apply`] returns: the round-half-up shifted
    /// product, truncated to `i32` (an `as i32` cast).
    pub open spec fn spec_apply(self, acc: int) -> i32 {
        self.spec_requant(acc) as i32
    }

    /// The requantized value before any narrowing: the product
    /// `acc × multiplier` divided by `2^shift`, rounding halves up.
    pub open spec fn spec_requant(self, acc: int) -> int {
        round_shift(acc * self.multiplier, self.shift as nat)
    }

    /// Apply requantization to a single `i32` accumulator value:
    /// `(acc × multiplier + 2^(shift-1)) >> shift`, i.e. the product divided
    /// by `2^shift` rounding halves up.
    pub fn apply(&self, acc: i32) -> (r: i32)
        requires
            self.can_apply(acc as int),
        ensures
            r == self.spec_apply(acc as int),
    {
        self.apply_wide(acc) as i32
    }

    /// The requantized value as an `i64`, before any narrowing.
    fn apply_wide(&self, acc: i32) -> (r: i64)
        requires
            self.can_apply(acc as int),
        ensures
            r == self.spec_requant(acc as int),
    {
        proof {
            lemma_i64_one_shl((self.shift - 1) as u32);
            assert(-0x4000_0000_0000_0000 <= acc * self.multiplier <= 0x4000_0000_0000_0000)
                by (nonlinear_arith)
                requires
                    i32::MIN <= acc <= i32::MAX,
                    i32::MIN <= self.multiplier <= i32::MAX,
            ;
            lemma_pow2_le_62((self.shift - 1) as nat);
        }
        let prod = acc as i64 * self.multiplier as i64;
        let rounding = 1i64 << (self.shift - 1);
        let sum = prod + rounding;
        let val = sum >> self.shift;
        proof {
            lemma_i64_shr_is_floor_div(sum, self.shift as u32);
        }
        val
    }

    /// Same as [`RequantShift::apply`]: the `i32` result, not clamped to
    /// `i8` bounds.
    pub fn apply_i32(&self, acc: i32) -> (r: i32)
        requires
            self.can_apply(acc as int),
        ensures
            r == self.spec_apply(acc as int),
    {
        self.apply(acc) as i32
    }

    /// Requantize and saturate into the output type `Out`: the rounded
    /// value is clamped to `Out`'s range before it is narrowed.
    pub fn apply_clamped<Out: Clamp>(&self, acc: i32) -> (r: Out)
        requires
            self.can_apply(acc as int),
            Out::spec_min_val() <= Out::spec_max_val(),
        ensures
            r.int_value() == clamp_int(
                self.spec_requant(acc as int),
                Out::spec_min_val(),
                Out::spec_max_val(),
            ),
    {
        let shifted = self.apply_wide(acc);
        Out::clamp_from_i64(shifted)
    }
}

// ─────────────────────────────────────────────────────────────────────────────
// Matrix-level requantization
// ─────────────────────────────────────────────────────────────────────────────

/// `rs` can requantize every element of `acc`.
pub open spec fn can_apply_all<const R: usize, const C: usize>(
    acc: Matrix<i32, R, C>,
    rs: RequantShift,
) -> bool {
    forall|r: int, c: int| 0 <= r < R && 0 <= c < C ==> rs.can_apply(#[trigger] acc.data[r][c] as int)
}

/// Column `c` of `acc` can be requantized by `rs[c]`, for every column.
pub open spec fn can_apply_per_channel<const R: usize, const C: usize>(
    acc: Matrix<i32, R, C>,
    rs: [RequantShift; C],
) -> bool {
    forall|r: int, c: int|
        0 <= r < R && 0 <= c < C ==> rs[c].can_apply(#[trigger] acc.data[r][c] as int)
}

/// Requantize an entire `i32` accumulator matrix to a narrow output type
/// `Out`: every element goes through [`RequantShift::apply_clamped`].
pub fn requantize_matrix<Out, const R: usize, const C: usize>(
    acc: &Matrix<i32, R, C>,
    rs: &RequantShift,
) -> (out: Matrix<Out, R, C>) where Out: Clamp + Copy + Default
    requires
        can_apply_all(*acc, *rs),
        R > 0 && C > 0 ==> Out::spec_min_val() <= Out::spec_max_val(),
    ensures
        forall|r: int, c: int|
            0 <= r < R && 0 <= c < C ==> (#[trigger] out.data[r][c]).int_value() == clamp_int(
                rs.spec_requant(acc.data[r][c] as int),
                Out::spec_min_val(),
                Out::spec_max_val(),
            ),
{
    let mut out = Matrix::<Out, R, C>::zeros();
    for r in 0..R
        invariant
            can_apply_all(*acc, *rs),
            R > 0 && C > 0 ==> Out::spec_min_val() <= Out::spec_max_val(),
            forall|i: int, c: int|
                0 <= i < r && 0 <= c < C ==> (#[trigger] out.data[i][c]).int_value() == clamp_int(
                    rs.spec_requant(acc.data[i][c] as int),
                    Out::spec_min_val(),
                    Out::spec_max_val(),
                ),
    {
        for c in 0..C
            invariant
                0 <= r < R,
                can_apply_all(*acc, *rs),
                R > 0 && C > 0 ==> Out::spec_min_val() <= Out::spec_max_val(),
                forall|i: int, j: int|
                    0 <= i < R && 0 <= j < C && (i < r || (i == r && j < c))
                        ==> (#[trigger] out.data[i][j]).int_value() == clamp_int(
                        rs.spec_requant(acc.data[i][j] as int),
                        Out::spec_min_val(),
                        Out::spec_max_val(),
                    ),
        {
            proof {
                assert(rs.can_apply(acc.data[r as int][c as int] as int));
            }
            out.data[r][c] = rs.apply_clamped(acc.data[r][c]);
        }
    }
    out
}

/// Requantize an entire `i32` accumulator matrix to `i32`, without
/// clamping.
pub fn requantize_matrix_i32<const R: usize, const C: usize>(
    acc: &Matrix<i32, R, C>,
    rs: &RequantShift,
) -> (out: Matrix<i32, R, C>)
    requires
        can_apply_all(*acc, *rs),
    ensures
        forall|r: int, c: int|
            0 <= r < R && 0 <= c < C ==> #[trigger] out.data[r][c] == rs.spec_apply(
                acc.data[r][c] as int,
            ),
{
    let mut out = Matrix::<i32, R, C>::zeros();
    for r in 0..R
        invariant
            can_apply_all(*acc, *rs),
            forall|i: int, c: int|
                0 <= i < r && 0 <= c < C ==> #[trigger] out.data[i][c] == rs.spec_apply(
                    acc.data[i][c] as int,
                ),
    {
        for c in 0..C
            invariant
                0 <= r < R,
                can_apply_all(*acc, *rs),
                forall|i: int, j: int|
                    0 <= i < R && 0 <= j < C && (i < r || (i == r && j < c))
                        ==> #[trigger] out.data[i][j] == rs.spec_apply(acc.data[i][j] as int),
        {
            proof {
                assert(rs.can_apply(acc.data[r as int][c as int] as int));
            }
            out.data[r][c] = rs.apply_i32(acc.data[r][c]);
        }
    }
    out
}

/// Requantize to `Out` with one [`RequantShift`] per output column
/// (per-channel scales).
pub fn requantize_matrix_per_channel<Out, const R: usize, const C: usize>(
    acc: &Matrix<i32, R, C>,
    rs: &[RequantShift; C],
) -> (out: Matrix<Out, R, C>) where Out: Clamp + Copy + Default
    requires
        can_apply_per_channel(*acc, *rs),
        R > 0 && C > 0 ==> Out::spec_min_val() <= Out::spec_max_val(),
    ensures
        forall|r: int, c: int|
            0 <= r < R && 0 <= c < C ==> (#[trigger] out.data[r][c]).int_value() == clamp_int(
                rs[c].spec_requant(acc.data[r][c] as int),
                Out::spec_min_val(),
                Out::spec_max_val(),
            ),
{
    let mut out = Matrix::<Out, R, C>::zeros();
    for r in 0..R
        invariant
            can_apply_per_channel(*acc, *rs),
            R > 0 && C > 0 ==> Out::spec_min_val() <= Out::spec_max_val(),
            forall|i: int, c: int|
                0 <= i < r && 0 <= c < C ==> (#[trigger] out.data[i][c]).int_value() == clamp_int(
                    rs[c].spec_requant(acc.data[i][c] as int),
                    Out::spec_min_val(),
                    Out::spec_max_val(),
                ),
    {
        for c in 0..C
            invariant
                0 <= r < R,
                can_apply_per_channel(*acc, *rs),
                R > 0 && C > 0 ==> Out::spec_min_val() <= Out::spec_max_val(),
                forall|i: int, j: int|
                    0 <= i < R && 0 <= j < C && (i < r || (i == r && j < c))
                        ==> (#[trigger] out.data[i][j]).int_value() == clamp_int(
                        rs[j].spec_requant(acc.data[i][j] as int),
                        Out::spec_min_val(),
                        Out::spec_max_val(),
                    ),
        {
            proof {
                assert(rs[c as int].can_apply(acc.data[r as int][c as int] as int));
            }
            out.data[r][c] = rs[c].apply_clamped(acc.data[r][c]);
        }
    }
    out
}

/// Requantize to `i32` with one [`RequantShift`] per output column.
pub fn requantize_matrix_i32_per_channel<const R: usize, const C: usize>(
    acc: &Matrix<i32, R, C>,
    rs: &[RequantShift; C],
) -> (out: Matrix<i32, R, C>)
    requires
        can_apply_per_channel(*acc, *rs),
    ensures
        forall|r: int, c: int|
            0 <= r < R && 0 <= c < C ==> #[trigger] out.data[r][c] == rs[c].spec_apply(
                acc.data[r][c] as int,
            ),
{
    let mut out = Matrix::<i32, R, C>::zeros();
    for r in 0..R
        invariant
            can_apply_per_channel(*acc, *rs),
            forall|i: int, c: int|
                0 <= i < r && 0 <= c < C ==> #[trigger] out.data[i][c] == rs[c].spec_apply(
                    acc.data[i][c] as int,
                ),
    {
        for c in 0..C
            invariant
                0 <= r < R,
                can_apply_per_channel(*acc, *rs),
                forall|i: int, j: int|
                    0 <= i < R && 0 <= j < C && (i < r || (i == r && j < c))
                        ==> #[trigger] out.data[i][j] == rs[j].spec_apply(acc.data[i][j] as int),
        {
            proof {
                assert(rs[c as int].can_apply(acc.data[r as int][c as int] as int));
            }
            out.data[r][c] = rs[c].apply_i32(acc.data[r][c]);
        }
    }
    out
}

/// The shift pair built from the ratio `1.0` requantizes every accumulator
/// to itself: `multiplier = 2^30`, `shift = 30`.
pub proof fn lemma_unit_ratio_is_identity(acc: int)
    ensures
        ratio_multiplier(0x3F80_0000) == 0x4000_0000,
        clamp_int(31 - frexp_exponent(0x3F80_0000), 0, 62) == 30,
        round_shift(acc * 0x4000_0000, 30) == acc,
{
    assert(f32_exp_field(0x3F80_0000u32) == 127) by (bit_vector);
    assert(f32_fraction(0x3F80_0000u32) == 0) by (bit_vector);
    assert(!f32_is_zero(0x3F80_0000u32)) by (bit_vector);
    lemma2_to64();
    assert(pow2(30) == 0x4000_0000) by {
        lemma2_to64_rest();
    }
    assert(pow2(29) == 0x2000_0000);
    lemma_fundamental_div_mod_converse(acc * 0x4000_0000 + 0x2000_0000, 0x4000_0000, acc, 0x2000_0000);
}

/// Rounding arithmetic right-shift: `(x + 2^(shift-1)) >> shift`, i.e.
/// `x / 2^shift` with halves rounded up (`5 → 3`, `-5 → -2` for shift 1).
pub fn rounding_right_shift(x: i64, shift: u32) -> (r: i64)
    requires
        shift < 64,
        shift > 0 ==> x + pow2((shift - 1) as nat) <= i64::MAX,
    ensures
        r as int == round_shift(x as int, shift as nat),
{
    if shift == 0 {
        return x;
    }
    proof {
        lemma_i64_one_shl((shift - 1) as u32);
        lemma_pow2_le_62((shift - 1) as nat);
    }
    let rounding = 1i64 << (shift - 1);
    let sum = x + rounding;
    proof {
        lemma_i64_shr_is_floor_div(sum, shift);
    }
    sum >> shift
}

} // verus!
