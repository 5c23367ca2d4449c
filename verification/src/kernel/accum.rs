//! # Accumulator widening trait
//!
//! Relates a narrow input type `T` to the wider type `T::Accum` in which
//! products are accumulated, as a widening multiply-accumulate does on ARM
//! (SMLAL), RISC-V (P-ext) and DSPs.
//!
//! | Input `T` | Accumulator `Accum` |
//! |-----------|---------------------|
//! | `i8`      | `i32`               |
//! | `i16`     | `i64`               |
//! | `i32`     | `i64`               |
//! | `i64`     | `i64` (identity)    |
//! | `u8`      | `u32`               |
//! | `u16`     | `u64`               |
//! | `u32`     | `u64`               |
//! | `u64`     | `u64` (identity)    |
//!
//! Every value is described by its mathematical integer (`value` and
//! `accum_value`); the accumulator's range is `[accum_min(), accum_max()]`.

use vstd::prelude::*;

verus! {

/// A scalar type that widens losslessly into a larger accumulator type.
///
/// - `widen(x)` keeps the integer value of `x`;
/// - `accum_zero()` is the accumulator's zero;
/// - `accum_add` / `accum_mul` are exact as long as the mathematical result
///   lies in the accumulator's range (outside it Rust's checked arithmetic
///   would panic, so such calls are ruled out by `requires`).
pub trait WideAccum: Copy + Sized {
    /// The wider type used to accumulate products.
    type Accum: Copy + Default;

    /// Integer value of a narrow element.
    spec fn value(self) -> int;

    /// Integer value of an accumulator.
    spec fn accum_value(a: Self::Accum) -> int;

    /// Smallest value the accumulator can hold.
    spec fn accum_min() -> int;

    /// Largest value the accumulator can hold.
    spec fn accum_max() -> int;

    /// Every accumulator value lies within `[accum_min(), accum_max()]`.
    proof fn lemma_accum_in_range(a: Self::Accum)
        ensures
            Self::accum_min() <= Self::accum_value(a) <= Self::accum_max(),
    ;

    /// The accumulator's `Default` value is its zero.
    proof fn lemma_default_is_zero(d: Self::Accum)
        requires
            call_ensures(<Self::Accum as core::default::Default>::default, (), d),
        ensures
            Self::accum_value(d) == 0,
    ;

    /// Zero value of the accumulator type.
    fn accum_zero() -> (z: Self::Accum)
        ensures
            Self::accum_value(z) == 0,
    ;

    /// Widen `self` losslessly into `Accum`.
    fn widen(self) -> (w: Self::Accum)
        ensures
            Self::accum_value(w) == self.value(),
    ;

    /// Sum of two accumulators, when it fits.
    fn accum_add(a: Self::Accum, b: Self::Accum) -> (r: Self::Accum)
        requires
            Self::accum_min() <= Self::accum_value(a) + Self::accum_value(b) <= Self::accum_max(),
        ensures
            Self::accum_value(r) == Self::accum_value(a) + Self::accum_value(b),
    ;

    /// Product of two accumulators, when it fits.
    fn accum_mul(a: Self::Accum, b: Self::Accum) -> (r: Self::Accum)
        requires
            Self::accum_min() <= Self::accum_value(a) * Self::accum_value(b) <= Self::accum_max(),
        ensures
            Self::accum_value(r) == Self::accum_value(a) * Self::accum_value(b),
    ;
}

impl WideAccum for i8 {
    type Accum = i32;

    open spec fn value(self) -> int {
        self as int
    }

    open spec fn accum_value(a: i32) -> int {
        a as int
    }

    open spec fn accum_min() -> int {
        i32::MIN as int
    }

    open spec fn accum_max() -> int {
        i32::MAX as int
    }

    proof fn lemma_accum_in_range(a: i32) {
    }

    proof fn lemma_default_is_zero(d: i32) {
    }

    fn accum_zero() -> (z: i32) {
        0
    }

    fn widen(self) -> (w: i32) {
        self as i32
    }

    fn accum_add(a: i32, b: i32) -> (r: i32) {
        a + b
    }

    fn accum_mul(a: i32, b: i32) -> (r: i32) {
        a * b
    }
}

impl WideAccum for i16 {
    type Accum = i64;

    open spec fn value(self) -> int {
        self as int
    }

    open spec fn accum_value(a: i64) -> int {
        a as int
    }

    open spec fn accum_min() -> int {
        i64::MIN as int
    }

    open spec fn accum_max() -> int {
        i64::MAX as int
    }

    proof fn lemma_accum_in_range(a: i64) {
    }

    proof fn lemma_default_is_zero(d: i64) {
    }

    fn accum_zero() -> (z: i64) {
        0
    }

    fn widen(self) -> (w: i64) {
        self as i64
    }

    fn accum_add(a: i64, b: i64) -> (r: i64) {
        a + b
    }

    fn accum_mul(a: i64, b: i64) -> (r: i64) {
        a * b
    }
}

impl WideAccum for i32 {
    type Accum = i64;

    open spec fn value(self) -> int {
        self as int
    }

    open spec fn accum_value(a: i64) -> int {
        a as int
    }

    open spec fn accum_min() -> int {
        i64::MIN as int
    }

    open spec fn accum_max() -> int {
        i64::MAX as int
    }

    proof fn lemma_accum_in_range(a: i64) {
    }

    proof fn lemma_default_is_zero(d: i64) {
    }

    fn accum_zero() -> (z: i64) {
        0
    }

    fn widen(self) -> (w: i64) {
        self as i64
    }

    fn accum_add(a: i64, b: i64) -> (r: i64) {
        a + b
    }

    fn accum_mul(a: i64, b: i64) -> (r: i64) {
        a * b
    }
}

impl WideAccum for i64 {
    type Accum = i64;

    open spec fn value(self) -> int {
        self as int
    }

    open spec fn accum_value(a: i64) -> int {
        a as int
    }

    open spec fn accum_min() -> int {
        i64::MIN as int
    }

    open spec fn accum_max() -> int {
        i64::MAX as int
    }

    proof fn lemma_accum_in_range(a: i64) {
    }

    proof fn lemma_default_is_zero(d: i64) {
    }

    fn accum_zero() -> (z: i64) {
        0
    }

    fn widen(self) -> (w: i64) {
        self
    }

    fn accum_add(a: i64, b: i64) -> (r: i64) {
        a + b
    }

    fn accum_mul(a: i64, b: i64) -> (r: i64) {
        a * b
    }
}

impl WideAccum for u8 {
    type Accum = u32;

    open spec fn value(self) -> int {
        self as int
    }

    open spec fn accum_value(a: u32) -> int {
        a as int
    }

    open spec fn accum_min() -> int {
        u32::MIN as int
    }

    open spec fn accum_max() -> int {
        u32::MAX as int
    }

    proof fn lemma_accum_in_range(a: u32) {
    }

    proof fn lemma_default_is_zero(d: u32) {
    }

    fn accum_zero() -> (z: u32) {
        0
    }

    fn widen(self) -> (w: u32) {
        self as u32
    }

    fn accum_add(a: u32, b: u32) -> (r: u32) {
        a + b
    }

    fn accum_mul(a: u32, b: u32) -> (r: u32) {
        a * b
    }
}

impl WideAccum for u16 {
    type Accum = u64;

    open spec fn value(self) -> int {
        self as int
    }

    open spec fn accum_value(a: u64) -> int {
        a as int
    }

    open spec fn accum_min() -> int {
        u64::MIN as int
    }

    open spec fn accum_max() -> int {
        u64::MAX as int
    }

    proof fn lemma_accum_in_range(a: u64) {
    }

    proof fn lemma_default_is_zero(d: u64) {
    }

    fn accum_zero() -> (z: u64) {
        0
    }

    fn widen(self) -> (w: u64) {
        self as u64
    }

    fn accum_add(a: u64, b: u64) -> (r: u64) {
        a + b
    }

    fn accum_mul(a: u64, b: u64) -> (r: u64) {
        a * b
    }
}

impl WideAccum for u32 {
    type Accum = u64;

    open spec fn value(self) -> int {
        self as int
    }

    open spec fn accum_value(a: u64) -> int {
        a as int
    }

    open spec fn accum_min() -> int {
        u64::MIN as int
    }

    open spec fn accum_max() -> int {
        u64::MAX as int
    }

    proof fn lemma_accum_in_range(a: u64) {
    }

    proof fn lemma_default_is_zero(d: u64) {
    }

    fn accum_zero() -> (z: u64) {
        0
    }

    fn widen(self) -> (w: u64) {
        self as u64
    }

    fn accum_add(a: u64, b: u64) -> (r: u64) {
        a + b
    }

    fn accum_mul(a: u64, b: u64) -> (r: u64) {
        a * b
    }
}

impl WideAccum for u64 {
    type Accum = u64;

    open spec fn value(self) -> int {
        self as int
    }

    open spec fn accum_value(a: u64) -> int {
        a as int
    }

    open spec fn accum_min() -> int {
        u64::MIN as int
    }

    open spec fn accum_max() -> int {
        u64::MAX as int
    }

    proof fn lemma_accum_in_range(a: u64) {
    }

    proof fn lemma_default_is_zero(d: u64) {
    }

    fn accum_zero() -> (z: u64) {
        0
    }

    fn widen(self) -> (w: u64) {
        self
    }

    fn accum_add(a: u64, b: u64) -> (r: u64) {
        a + b
    }

    fn accum_mul(a: u64, b: u64) -> (r: u64) {
        a * b
    }
}

} // verus!
