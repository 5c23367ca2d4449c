//! # Clamp and activation functions
//!
//! - [`Clamp`] — saturating narrow from a wide `i64` value
//! - [`clamp_i8`] / [`clamp_i16`] / [`clamp_u8`] — concrete helpers
//! - [`relu_i8`] / [`relu6_i8`] / [`relu_i32`] — activations in quantized space
//! - [`apply_relu`] / [`apply_relu6`] / [`apply_relu_i32`] — in-place matrix activation
//!
//! A saturating clamp at the output of requantization makes an over-range
//! accumulator produce `MIN` / `MAX` instead of wrapping to a random value.
//!
//! For a symmetric tensor float 0.0 is quantized 0, so `relu(q) = max(q, 0)`;
//! for an affine tensor float 0.0 is `zero_point`, so
//! `relu(q) = max(q, zero_point)`.

use vstd::prelude::*;
use crate::matrix::Matrix;

verus! {

/// `x` saturated into `[lo, hi]` (for `lo <= hi`).
pub open spec fn clamp_int(x: int, lo: int, hi: int) -> int {
    if x < lo {
        lo
    } else if x > hi {
        hi
    } else {
        x
    }
}

/// `max(x, y)`.
pub open spec fn max_int(x: int, y: int) -> int {
    if x < y {
        y
    } else {
        x
    }
}

/// `x` restricted to `[lo, hi]`, as `Ord::clamp` does (which panics when
/// `lo > hi`; that input is excluded here).
fn saturate_i64(x: i64, lo: i64, hi: i64) -> (r: i64)
    requires
        lo <= hi,
    ensures
        r as int == clamp_int(x as int, lo as int, hi as int),
{
    if x < lo {
        lo
    } else if x > hi {
        hi
    } else {
        x
    }
}

/// `x` restricted to `[lo, hi]` (`lo <= hi`).
fn saturate_i32(x: i32, lo: i32, hi: i32) -> (r: i32)
    requires
        lo <= hi,
    ensures
        r as int == clamp_int(x as int, lo as int, hi as int),
{
    if x < lo {
        lo
    } else if x > hi {
        hi
    } else {
        x
    }
}

/// `x` restricted to `[lo, hi]` (`lo <= hi`).
fn saturate_i8(x: i8, lo: i8, hi: i8) -> (r: i8)
    requires
        lo <= hi,
    ensures
        r as int == clamp_int(x as int, lo as int, hi as int),
{
    if x < lo {
        lo
    } else if x > hi {
        hi
    } else {
        x
    }
}

// ─────────────────────────────────────────────────────────────────────────────
// Clamp trait
// ─────────────────────────────────────────────────────────────────────────────

/// Saturating narrow: convert an `i64` to `Self`, clamping to
/// `[min_val(), max_val()]`.
///
/// `min_val()` / `max_val()` are `Self::MIN as i64` / `Self::MAX as i64`. For
/// `u64` the cast makes `max_val()` equal to `-1`, below `min_val()`, so no
/// `clamp_from_i64` call is possible for `u64` (`i64::clamp` would panic).
pub trait Clamp: Copy + Sized {
    /// Integer value of `self`.
    spec fn int_value(self) -> int;

    /// `Self::MIN as i64`.
    spec fn spec_min_val() -> int;

    /// `Self::MAX as i64`.
    spec fn spec_max_val() -> int;

    /// Saturate `x` into `[min_val(), max_val()]`.
    fn clamp_from_i64(x: i64) -> (r: Self)
        requires
            Self::spec_min_val() <= Self::spec_max_val(),
        ensures
            r.int_value() == clamp_int(x as int, Self::spec_min_val(), Self::spec_max_val()),
    ;

    /// `Self::MIN as i64`.
    fn min_val() -> (r: i64)
        ensures
            r as int == Self::spec_min_val(),
    ;

    /// `Self::MAX as i64`.
    fn max_val() -> (r: i64)
        ensures
            r as int == Self::spec_max_val(),
    ;
}

impl Clamp for i8 {
    open spec fn int_value(self) -> int {
        self as int
    }

    open spec fn spec_min_val() -> int {
        i8::MIN as int
    }

    open spec fn spec_max_val() -> int {
        i8::MAX as int
    }

    fn clamp_from_i64(x: i64) -> (r: i8) {
        saturate_i64(x, i8::MIN as i64, i8::MAX as i64) as i8
    }

    fn min_val() -> (r: i64) {
        i8::MIN as i64
    }

    fn max_val() -> (r: i64) {
        i8::MAX as i64
    }
}

impl Clamp for i16 {
    open spec fn int_value(self) -> int {
        self as int
    }

    open spec fn spec_min_val() -> int {
        i16::MIN as int
    }

    open spec fn spec_max_val() -> int {
        i16::MAX as int
    }

    fn clamp_from_i64(x: i64) -> (r: i16) {
        saturate_i64(x, i16::MIN as i64, i16::MAX as i64) as i16
    }

    fn min_val() -> (r: i64) {
        i16::MIN as i64
    }

    fn max_val() -> (r: i64) {
        i16::MAX as i64
    }
}

impl Clamp for i32 {
    open spec fn int_value(self) -> int {
        self as int
    }

    open spec fn spec_min_val() -> int {
        i32::MIN as int
    }

    open spec fn spec_max_val() -> int {
        i32::MAX as int
    }

    fn clamp_from_i64(x: i64) -> (r: i32) {
        saturate_i64(x, i32::MIN as i64, i32::MAX as i64) as i32
    }

    fn min_val() -> (r: i64) {
        i32::MIN as i64
    }

    fn max_val() -> (r: i64) {
        i32::MAX as i64
    }
}

impl Clamp for i64 {
    open spec fn int_value(self) -> int {
        self as int
    }

    open spec fn spec_min_val() -> int {
        i64::MIN as int
    }

    open spec fn spec_max_val() -> int {
        i64::MAX as int
    }

    fn clamp_from_i64(x: i64) -> (r: i64) {
        saturate_i64(x, i64::MIN as i64, i64::MAX as i64) as i64
    }

    fn min_val() -> (r: i64) {
        i64::MIN as i64
    }

    fn max_val() -> (r: i64) {
        i64::MAX as i64
    }
}

impl Clamp for u8 {
    open spec fn int_value(self) -> int {
        self as int
    }

    open spec fn spec_min_val() -> int {
        0
    }

    open spec fn spec_max_val() -> int {
        u8::MAX as int
    }

    fn clamp_from_i64(x: i64) -> (r: u8) {
        saturate_i64(x, u8::MIN as i64, u8::MAX as i64) as u8
    }

    fn min_val() -> (r: i64) {
        u8::MIN as i64
    }

    fn max_val() -> (r: i64) {
        u8::MAX as i64
    }
}

impl Clamp for u16 {
    open spec fn int_value(self) -> int {
        self as int
    }

    open spec fn spec_min_val() -> int {
        0
    }

    open spec fn spec_max_val() -> int {
        u16::MAX as int
    }

    fn clamp_from_i64(x: i64) -> (r: u16) {
        saturate_i64(x, u16::MIN as i64, u16::MAX as i64) as u16
    }

    fn min_val() -> (r: i64) {
        u16::MIN as i64
    }

    fn max_val() -> (r: i64) {
        u16::MAX as i64
    }
}

impl Clamp for u32 {
    open spec fn int_value(self) -> int {
        self as int
    }

    open spec fn spec_min_val() -> int {
        0
    }

    open spec fn spec_max_val() -> int {
        u32::MAX as int
    }

    fn clamp_from_i64(x: i64) -> (r: u32) {
        saturate_i64(x, u32::MIN as i64, u32::MAX as i64) as u32
    }

    fn min_val() -> (r: i64) {
        u32::MIN as i64
    }

    fn max_val() -> (r: i64) {
        u32::MAX as i64
    }
}

impl Clamp for u64 {
    open spec fn int_value(self) -> int {
        self as int
    }

    open spec fn spec_min_val() -> int {
        0
    }

    open spec fn spec_max_val() -> int {
        -1
    }

    fn clamp_from_i64(x: i64) -> (r: u64) {
        saturate_i64(x, u64::MIN as i64, u64::MAX as i64) as u64
    }

    fn min_val() -> (r: i64) {
        u64::MIN as i64
    }

    fn max_val() -> (r: i64) {
        assert(u64::MAX as i64 == -1i64) by (bit_vector);
        u64::MAX as i64
    }
}

// ─────────────────────────────────────────────────────────────────────────────
// Scalar clamp helpers
// ─────────────────────────────────────────────────────────────────────────────

/// Saturating clamp to `i8` range.
pub fn clamp_i8(x: i32) -> (r: i8)
    ensures
        r as int == clamp_int(x as int, i8::MIN as int, i8::MAX as int),
{
    saturate_i32(x, i8::MIN as i32, i8::MAX as i32) as i8
}

/// Saturating clamp to `i16` range.
pub fn clamp_i16(x: i32) -> (r: i16)
    ensures
        r as int == clamp_int(x as int, i16::MIN as int, i16::MAX as int),
{
    saturate_i32(x, i16::MIN as i32, i16::MAX as i32) as i16
}

/// Saturating clamp to `u8` range (e.g. after unsigned quantization).
pub fn clamp_u8(x: i32) -> (r: u8)
    ensures
        r as int == clamp_int(x as int, 0, u8::MAX as int),
{
    saturate_i32(x, u8::MIN as i32, u8::MAX as i32) as u8
}

// ─────────────────────────────────────────────────────────────────────────────
// ReLU activations
// ─────────────────────────────────────────────────────────────────────────────

/// ReLU in quantized `i8` space: `max(q, zero_point)`.
///
/// `zero_point` is the quantized representation of float 0.0 (0 for
/// symmetric quantization).
pub fn relu_i8(q: i8, zero_point: i8) -> (r: i8)
    ensures
        r as int == max_int(q as int, zero_point as int),
{
    q.max(zero_point)
}

/// ReLU6 in quantized `i8` space: `q` clamped into `[zero_point, six_q]`,
/// where `six_q` is the quantized value of float 6.0.
///
/// `zero_point <= six_q` is required (`i8::clamp` panics otherwise).
pub fn relu6_i8(q: i8, zero_point: i8, six_q: i8) -> (r: i8)
    requires
        zero_point <= six_q,
    ensures
        r as int == clamp_int(q as int, zero_point as int, six_q as int),
{
    saturate_i8(q, zero_point, six_q)
}

/// ReLU in `i32` accumulator space (applied before requantization).
pub fn relu_i32(acc: i32, zero_point: i32) -> (r: i32)
    ensures
        r as int == max_int(acc as int, zero_point as int),
{
    acc.max(zero_point)
}

// ─────────────────────────────────────────────────────────────────────────────
// In-place matrix activations
// ─────────────────────────────────────────────────────────────────────────────

/// Apply ReLU in place to every element of a `Matrix<i8>`.
pub fn apply_relu<const R: usize, const C: usize>(mat: &mut Matrix<i8, R, C>, zero_point: i8)
    ensures
        forall|r: int, c: int|
            0 <= r < R && 0 <= c < C ==> #[trigger] final(mat).data[r][c] as int == max_int(
                old(mat).data[r][c] as int,
                zero_point as int,
            ),
{
    for r in 0..R
        invariant
            forall|i: int, c: int|
                0 <= i < R && 0 <= c < C ==> #[trigger] mat.data[i][c] as int == if i < r {
                    max_int(old(mat).data[i][c] as int, zero_point as int)
                } else {
                    old(mat).data[i][c] as int
                },
    {
        for c in 0..C
            invariant
                0 <= r < R,
                forall|i: int, j: int|
                    0 <= i < R && 0 <= j < C ==> #[trigger] mat.data[i][j] as int == if i < r || (i
                        == r && j < c) {
                        max_int(old(mat).data[i][j] as int, zero_point as int)
                    } else {
                        old(mat).data[i][j] as int
                    },
        {
            mat.data[r][c] = relu_i8(mat.data[r][c], zero_point);
        }
    }
}

/// Apply ReLU6 in place to every element of a `Matrix<i8>`.
pub fn apply_relu6<const R: usize, const C: usize>(
    mat: &mut Matrix<i8, R, C>,
    zero_point: i8,
    six_q: i8,
)
    requires
        R == 0 || C == 0 || zero_point <= six_q,
    ensures
        forall|r: int, c: int|
            0 <= r < R && 0 <= c < C ==> #[trigger] final(mat).data[r][c] as int == clamp_int(
                old(mat).data[r][c] as int,
                zero_point as int,
                six_q as int,
            ),
{
    for r in 0..R
        invariant
            R == 0 || C == 0 || zero_point <= six_q,
            forall|i: int, c: int|
                0 <= i < R && 0 <= c < C ==> #[trigger] mat.data[i][c] as int == if i < r {
                    clamp_int(old(mat).data[i][c] as int, zero_point as int, six_q as int)
                } else {
                    old(mat).data[i][c] as int
                },
    {
        for c in 0..C
            invariant
                0 <= r < R,
                R == 0 || C == 0 || zero_point <= six_q,
                forall|i: int, j: int|
                    0 <= i < R && 0 <= j < C ==> #[trigger] mat.data[i][j] as int == if i < r || (i
                        == r && j < c) {
                        clamp_int(old(mat).data[i][j] as int, zero_point as int, six_q as int)
                    } else {
                        old(mat).data[i][j] as int
                    },
        {
            mat.data[r][c] = relu6_i8(mat.data[r][c], zero_point, six_q);
        }
    }
}

/// Apply ReLU in place to an `i32` accumulator matrix.
pub fn apply_relu_i32<const R: usize, const C: usize>(acc: &mut Matrix<i32, R, C>, zero_point: i32)
    ensures
        forall|r: int, c: int|
            0 <= r < R && 0 <= c < C ==> #[trigger] final(acc).data[r][c] as int == max_int(
                old(acc).data[r][c] as int,
                zero_point as int,
            ),
{
    for r in 0..R
        invariant
            forall|i: int, c: int|
                0 <= i < R && 0 <= c < C ==> #[trigger] acc.data[i][c] as int == if i < r {
                    max_int(old(acc).data[i][c] as int, zero_point as int)
                } else {
                    old(acc).data[i][c] as int
                },
    {
        for c in 0..C
            invariant
                0 <= r < R,
                forall|i: int, j: int|
                    0 <= i < R && 0 <= j < C ==> #[trigger] acc.data[i][j] as int == if i < r || (i
                        == r && j < c) {
                        max_int(old(acc).data[i][j] as int, zero_point as int)
                    } else {
                        old(acc).data[i][j] as int
                    },
        {
            acc.data[r][c] = relu_i32(acc.data[r][c], zero_point);
        }
    }
}

/// `|x|`.
pub open spec fn abs_int(x: int) -> int {
    if x < 0 {
        -x
    } else {
        x
    }
}

// ─────────────────────────────────────────────────────────────────────────────
// Matrix-level clamp helpers
// ─────────────────────────────────────────────────────────────────────────────

/// Clamp an entire `i32` matrix down to `i8`, element by element.
pub fn clamp_matrix_i8<const R: usize, const C: usize>(mat: &Matrix<i32, R, C>) -> (out: Matrix<
    i8,
    R,
    C,
>)
    ensures
        forall|r: int, c: int|
            0 <= r < R && 0 <= c < C ==> #[trigger] out.data[r][c] as int == clamp_int(
                mat.data[r][c] as int,
                i8::MIN as int,
                i8::MAX as int,
            ),
{
    let mut out = Matrix::<i8, R, C>::zeros();
    for r in 0..R
        invariant
            forall|i: int, c: int|
                0 <= i < R && 0 <= c < C && i < r ==> #[trigger] out.data[i][c] as int == clamp_int(
                    mat.data[i][c] as int,
                    i8::MIN as int,
                    i8::MAX as int,
                ),
    {
        for c in 0..C
            invariant
                0 <= r < R,
                forall|i: int, j: int|
                    0 <= i < R && 0 <= j < C && (i < r || (i == r && j < c))
                        ==> #[trigger] out.data[i][j] as int == clamp_int(
                        mat.data[i][j] as int,
                        i8::MIN as int,
                        i8::MAX as int,
                    ),
        {
            out.data[r][c] = clamp_i8(mat.data[r][c]);
        }
    }
    out
}

/// Largest absolute value in `mat` (0 for an empty matrix): the global
/// amplitude by which an `i32` residual stream is rescaled into `i8`.
///
/// No element may be `i32::MIN`, whose absolute value does not fit in
/// `i32`.
pub fn abs_max_i32<const R: usize, const C: usize>(mat: &Matrix<i32, R, C>) -> (m: i32)
    requires
        forall|r: int, c: int| 0 <= r < R && 0 <= c < C ==> #[trigger] mat.data[r][c] != i32::MIN,
    ensures
        0 <= m,
        forall|r: int, c: int| 0 <= r < R && 0 <= c < C ==> abs_int(#[trigger] mat.data[r][c] as int) <= m,
        m == 0 || exists|r: int, c: int|
            0 <= r < R && 0 <= c < C && abs_int(#[trigger] mat.data[r][c] as int) == m,
{
    let mut global_max: i32 = 0;
    for r in 0..R
        invariant
            forall|i: int, c: int| 0 <= i < R && 0 <= c < C ==> #[trigger] mat.data[i][c] != i32::MIN,
            0 <= global_max,
            forall|i: int, c: int| 0 <= i < r && 0 <= c < C ==> abs_int(#[trigger] mat.data[i][c] as int) <= global_max,
            global_max == 0 || exists|i: int, c: int|
                0 <= i < R && 0 <= c < C && abs_int(#[trigger] mat.data[i][c] as int) == global_max,
    {
        for c in 0..C
            invariant
                0 <= r < R,
                forall|i: int, j: int| 0 <= i < R && 0 <= j < C ==> #[trigger] mat.data[i][j] != i32::MIN,
                0 <= global_max,
                forall|i: int, j: int|
                    0 <= i < R && 0 <= j < C && (i < r || (i == r && j < c)) ==> abs_int(
                        #[trigger] mat.data[i][j] as int,
                    ) <= global_max,
                global_max == 0 || exists|i: int, j: int|
                    0 <= i < R && 0 <= j < C && abs_int(#[trigger] mat.data[i][j] as int) == global_max,
        {
            let x = mat.data[r][c];
            let val = if x < 0 {
                -x
            } else {
                x
            };
            if val > global_max {
                global_max = val;
            }
        }
    }
    global_max
}

} // verus!
