//! Matrix storage types.
//!
//! - [`Matrix<T, R, C>`]  — stack-allocated, const-generic, row-major
//! - [`DynMatrix<T>`]     — heap-backed, sizes chosen at run time

use vstd::prelude::*;

verus! {

// ─────────────────────────────────────────────────────────────────────────────
// MatMulScalar  (homogeneous T×T→T)
// ─────────────────────────────────────────────────────────────────────────────

/// Scalar type for homogeneous (non-widening) multiplication.
///
/// Each value stands for the integer `sval()`; `smul` and `sadd` are exact
/// when the mathematical result fits in `[smin(), smax()]`.
pub trait MatMulScalar: Copy + Default + Sized {
    /// Integer value of the scalar.
    spec fn sval(self) -> int;

    /// Smallest representable value.
    spec fn smin() -> int;

    /// Largest representable value.
    spec fn smax() -> int;

    /// The `Default` value is zero.
    proof fn lemma_default_is_zero(d: Self)
        requires
            call_ensures(<Self as core::default::Default>::default, (), d),
        ensures
            d.sval() == 0,
    ;

    /// Additive identity.
    fn zero() -> (z: Self)
        ensures
            z.sval() == 0,
    ;

    /// Sum, when it fits.
    fn sadd(self, other: Self) -> (r: Self)
        requires
            Self::smin() <= self.sval() + other.sval() <= Self::smax(),
        ensures
            r.sval() == self.sval() + other.sval(),
    ;

    /// Product, when it fits.
    fn smul(self, other: Self) -> (r: Self)
        requires
            Self::smin() <= self.sval() * other.sval() <= Self::smax(),
        ensures
            r.sval() == self.sval() * other.sval(),
    ;
}

impl MatMulScalar for i8 {
    proof fn lemma_default_is_zero(d: i8) {
    }

    open spec fn sval(self) -> int {
        self as int
    }

    open spec fn smin() -> int {
        i8::MIN as int
    }

    open spec fn smax() -> int {
        i8::MAX as int
    }

    fn zero() -> (z: i8) {
        0
    }

    fn sadd(self, other: i8) -> (r: i8) {
        self + other
    }

    fn smul(self, other: i8) -> (r: i8) {
        self * other
    }
}

impl MatMulScalar for i16 {
    proof fn lemma_default_is_zero(d: i16) {
    }

    open spec fn sval(self) -> int {
        self as int
    }

    open spec fn smin() -> int {
        i16::MIN as int
    }

    open spec fn smax() -> int {
        i16::MAX as int
    }

    fn zero() -> (z: i16) {
        0
    }

    fn sadd(self, other: i16) -> (r: i16) {
        self + other
    }

    fn smul(self, other: i16) -> (r: i16) {
        self * other
    }
}

impl MatMulScalar for i32 {
    proof fn lemma_default_is_zero(d: i32) {
    }

    open spec fn sval(self) -> int {
        self as int
    }

    open spec fn smin() -> int {
        i32::MIN as int
    }

    open spec fn smax() -> int {
        i32::MAX as int
    }

    fn zero() -> (z: i32) {
        0
    }

    fn sadd(self, other: i32) -> (r: i32) {
        self + other
    }

    fn smul(self, other: i32) -> (r: i32) {
        self * other
    }
}

impl MatMulScalar for i64 {
    proof fn lemma_default_is_zero(d: i64) {
    }

    open spec fn sval(self) -> int {
        self as int
    }

    open spec fn smin() -> int {
        i64::MIN as int
    }

    open spec fn smax() -> int {
        i64::MAX as int
    }

    fn zero() -> (z: i64) {
        0
    }

    fn sadd(self, other: i64) -> (r: i64) {
        self + other
    }

    fn smul(self, other: i64) -> (r: i64) {
        self * other
    }
}

impl MatMulScalar for u8 {
    proof fn lemma_default_is_zero(d: u8) {
    }

    open spec fn sval(self) -> int {
        self as int
    }

    open spec fn smin() -> int {
        u8::MIN as int
    }

    open spec fn smax() -> int {
        u8::MAX as int
    }

    fn zero() -> (z: u8) {
        0
    }

    fn sadd(self, other: u8) -> (r: u8) {
        self + other
    }

    fn smul(self, other: u8) -> (r: u8) {
        self * other
    }
}

impl MatMulScalar for u16 {
    proof fn lemma_default_is_zero(d: u16) {
    }

    open spec fn sval(self) -> int {
        self as int
    }

    open spec fn smin() -> int {
        u16::MIN as int
    }

    open spec fn smax() -> int {
        u16::MAX as int
    }

    fn zero() -> (z: u16) {
        0
    }

    fn sadd(self, other: u16) -> (r: u16) {
        self + other
    }

    fn smul(self, other: u16) -> (r: u16) {
        self * other
    }
}

impl MatMulScalar for u32 {
    proof fn lemma_default_is_zero(d: u32) {
    }

    open spec fn sval(self) -> int {
        self as int
    }

    open spec fn smin() -> int {
        u32::MIN as int
    }

    open spec fn smax() -> int {
        u32::MAX as int
    }

    fn zero() -> (z: u32) {
        0
    }

    fn sadd(self, other: u32) -> (r: u32) {
        self + other
    }

    fn smul(self, other: u32) -> (r: u32) {
        self * other
    }
}

impl MatMulScalar for u64 {
    proof fn lemma_default_is_zero(d: u64) {
    }

    open spec fn sval(self) -> int {
        self as int
    }

    open spec fn smin() -> int {
        u64::MIN as int
    }

    open spec fn smax() -> int {
        u64::MAX as int
    }

    fn zero() -> (z: u64) {
        0
    }

    fn sadd(self, other: u64) -> (r: u64) {
        self + other
    }

    fn smul(self, other: u64) -> (r: u64) {
        self * other
    }
}

// ─────────────────────────────────────────────────────────────────────────────
// Matrix<T, R, C>  — stack storage
// ─────────────────────────────────────────────────────────────────────────────

/// Stack-allocated, row-major matrix: `data[r][c]` is row `r`, column `c`.
#[derive(Clone, Copy, PartialEq, Debug)]
pub struct Matrix<T, const R: usize, const C: usize> {
    pub data: [[T; C]; R],
}

impl<T: Copy + Default, const R: usize, const C: usize> Matrix<T, R, C> {
    /// Create a matrix filled with `T::default()` (zero for all numerics).
    pub fn zeros() -> (m: Self)
        ensures
            forall|r: int, c: int|
                0 <= r < R && 0 <= c < C ==> call_ensures(T::default, (), #[trigger] m.data[r][c]),
            forall|r: int, c: int, r2: int, c2: int|
                0 <= r < R && 0 <= c < C && 0 <= r2 < R && 0 <= c2 < C ==> #[trigger] m.data[r][c]
                    == #[trigger] m.data[r2][c2],
    {
        let d = T::default();
        let row = [d; C];
        proof {
            assert forall|c: int| 0 <= c < C implies #[trigger] row[c] == d by {
                assert(row@[c] == d);
            }
        }
        let mut data = [row; R];
        for r in 0..R
            invariant
                forall|x: int| 0 <= x < r ==> #[trigger] data[x] == row,
        {
            data[r] = row;
        }
        Matrix { data }
    }

    /// Create from a 2-D array literal.
    pub fn from_array(data: [[T; C]; R]) -> (m: Self)
        ensures
            m.data == data,
    {
        Matrix { data }
    }

    /// Element at row `r`, column `c`.
    pub fn get(&self, r: usize, c: usize) -> (v: T)
        requires
            r < R,
            c < C,
        ensures
            v == self.data[r as int][c as int],
    {
        self.data[r][c]
    }

    /// Overwrite the element at row `r`, column `c`; all others are kept.
    pub fn set(&mut self, r: usize, c: usize, v: T)
        requires
            r < R,
            c < C,
        ensures
            forall|i: int, j: int|
                0 <= i < R && 0 <= j < C ==> #[trigger] final(self).data[i][j] == if i == r && j
                    == c {
                    v
                } else {
                    old(self).data[i][j]
                },
    {
        self.data[r][c] = v;
    }

    /// Number of rows.
    pub fn rows(&self) -> (n: usize)
        ensures
            n == R,
    {
        R
    }

    /// Number of columns.
    pub fn cols(&self) -> (n: usize)
        ensures
            n == C,
    {
        C
    }
}

impl<T: Copy + Default, const R: usize, const C: usize> Matrix<T, R, C> {
    /// The `C × R` transpose: `t.data[c][r] == self.data[r][c]`.
    pub fn transposed(&self) -> (t: Matrix<T, C, R>)
        ensures
            forall|r: int, c: int| 0 <= r < R && 0 <= c < C ==> #[trigger] t.data[c][r] == self.data[r][c],
    {
        let mut t = Matrix::<T, C, R>::zeros();
        for r in 0..R
            invariant
                forall|i: int, c: int| 0 <= i < r && 0 <= c < C ==> #[trigger] t.data[c][i] == self.data[i][c],
        {
            for c in 0..C
                invariant
                    0 <= r < R,
                    forall|i: int, j: int|
                        0 <= i < R && 0 <= j < C && (i < r || (i == r && j < c)) ==> #[trigger] t.data[j][i]
                            == self.data[i][j],
            {
                t.data[c][r] = self.data[r][c];
            }
        }
        t
    }
}

impl<T: Copy + Default + From<u8>, const N: usize> Matrix<T, N, N> {
    /// Square identity matrix: `T::from(1)` on the diagonal, `T::default()`
    /// everywhere else.
    pub fn identity() -> (m: Self)
        ensures
            forall|r: int, c: int|
                0 <= r < N && 0 <= c < N && r != c ==> call_ensures(
                    T::default,
                    (),
                    #[trigger] m.data[r][c],
                ),
            forall|r: int| 0 <= r < N ==> call_ensures(T::from, (1u8,), #[trigger] m.data[r][r]),
    {
        let mut m = Self::zeros();
        let one = T::from(1u8);
        let mut i: usize = 0;
        while i < N
            invariant
                i <= N,
                call_ensures(T::from, (1u8,), one),
                forall|r: int, c: int|
                    0 <= r < N && 0 <= c < N && (r != c || r >= i) ==> call_ensures(
                        T::default,
                        (),
                        #[trigger] m.data[r][c],
                    ),
                forall|r: int| 0 <= r < i ==> #[trigger] m.data[r][r] == one,
            decreases N - i,
        {
            m.data[i][i] = one;
            i = i + 1;
        }
        m
    }
}

// ─────────────────────────────────────────────────────────────────────────────
// DynMatrix<T>  — heap storage
// ─────────────────────────────────────────────────────────────────────────────

/// Heap-backed row-major matrix for sizes known only at run time.
///
/// Its view is the row-major sequence of its `rows * cols` elements:
/// element `(r, c)` is `self@[r * cols + c]`.
#[derive(PartialEq, Debug)]
pub struct DynMatrix<T> {
    rows: usize,
    cols: usize,
    data: Vec<T>,
}

impl<T> DynMatrix<T> {
    #[verifier::type_invariant]
    spec fn shape_matches(self) -> bool {
        self.data@.len() == self.rows * self.cols
    }

    /// Number of rows.
    pub closed spec fn spec_rows(self) -> nat {
        self.rows as nat
    }

    /// Number of columns.
    pub closed spec fn spec_cols(self) -> nat {
        self.cols as nat
    }

    /// Element `(r, c)`.
    pub open spec fn entry(self, r: int, c: int) -> T {
        self@[r * self.spec_cols() + c]
    }
}

impl<T: Clone> Clone for DynMatrix<T> {
    /// A copy with the same shape whose elements are clones of these.
    fn clone(&self) -> (m: Self)
        ensures
            m.spec_rows() == self.spec_rows(),
            m.spec_cols() == self.spec_cols(),
            m@.len() == self@.len(),
            forall|i: int| 0 <= i < self@.len() ==> cloned::<T>(self@[i], #[trigger] m@[i]),
    {
        proof {
            use_type_invariant(self);
        }
        DynMatrix { rows: self.rows, cols: self.cols, data: self.data.clone() }
    }
}

impl<T> View for DynMatrix<T> {
    type V = Seq<T>;

    closed spec fn view(&self) -> Seq<T> {
        self.data@
    }
}

impl<T: Copy + Default> DynMatrix<T> {
    /// A `rows × cols` matrix filled with `T::default()`.
    pub fn zeros(rows: usize, cols: usize) -> (m: Self)
        requires
            rows * cols <= usize::MAX,
        ensures
            m.spec_rows() == rows,
            m.spec_cols() == cols,
            m@.len() == rows * cols,
            forall|i: int| 0 <= i < rows * cols ==> call_ensures(T::default, (), #[trigger] m@[i]),
    {
        let n = rows * cols;
        let mut data: Vec<T> = Vec::new();
        let mut i: usize = 0;
        while i < n
            invariant
                i <= n,
                data@.len() == i,
                forall|k: int| 0 <= k < i ==> call_ensures(T::default, (), #[trigger] data@[k]),
            decreases n - i,
        {
            data.push(T::default());
            i = i + 1;
        }
        DynMatrix { rows, cols, data }
    }

    /// A `rows × cols` matrix holding a copy of `src` in row-major order.
    ///
    /// `src` must hold exactly `rows * cols` elements.
    pub fn from_slice(rows: usize, cols: usize, src: &[T]) -> (m: Self)
        requires
            src@.len() == rows * cols,
        ensures
            m.spec_rows() == rows,
            m.spec_cols() == cols,
            m@ == src@,
    {
        let mut data: Vec<T> = Vec::new();
        let mut i: usize = 0;
        while i < src.len()
            invariant
                i <= src@.len(),
                data@ == src@.subrange(0, i as int),
            decreases src@.len() - i,
        {
            data.push(src[i]);
            i = i + 1;
        }
        proof {
            assert(data@ == src@);
        }
        DynMatrix { rows, cols, data }
    }

    /// Element at row `r`, column `c` (the element at flat index
    /// `r * cols + c`, which must exist).
    pub fn get(&self, r: usize, c: usize) -> (v: T)
        requires
            r * self.spec_cols() + c < self@.len(),
        ensures
            v == self@[r * self.spec_cols() + c],
    {
        proof {
            use_type_invariant(self);
        }
        let n = self.data.len();
        proof {
            assert(r * self.cols + c < n);
            assert(0 <= r * self.cols) by (nonlinear_arith);
        }
        self.data[r * self.cols + c]
    }

    /// Overwrite the element at flat index `r * cols + c` (which must exist).
    pub fn set(&mut self, r: usize, c: usize, v: T)
        requires
            r * old(self).spec_cols() + c < old(self)@.len(),
        ensures
            final(self).spec_rows() == old(self).spec_rows(),
            final(self).spec_cols() == old(self).spec_cols(),
            final(self)@ == old(self)@.update(r * old(self).spec_cols() + c, v),
    {
        proof {
            use_type_invariant(&*self);
        }
        let mut taken = DynMatrix { rows: 0, cols: 0, data: Vec::new() };
        core::mem::swap(self, &mut taken);
        proof {
            use_type_invariant(&taken);
        }
        let DynMatrix { rows, cols, mut data } = taken;
        let n = data.len();
        proof {
            assert(r * cols + c < n);
            assert(0 <= r * cols) by (nonlinear_arith);
        }
        let idx = r * cols + c;
        data.set(idx, v);
        *self = DynMatrix { rows, cols, data };
    }

    /// Number of rows; the view holds `rows * cols` elements.
    pub fn rows(&self) -> (n: usize)
        ensures
            n == self.spec_rows(),
            self@.len() == self.spec_rows() * self.spec_cols(),
    {
        proof {
            use_type_invariant(self);
        }
        self.rows
    }

    /// Number of columns; the view holds `rows * cols` elements.
    pub fn cols(&self) -> (n: usize)
        ensures
            n == self.spec_cols(),
            self@.len() == self.spec_rows() * self.spec_cols(),
    {
        proof {
            use_type_invariant(self);
        }
        self.cols
    }
}

} // verus!
