//! Sequential reader over a model byte buffer.

use vstd::prelude::*;
use crate::matrix::Matrix;
use crate::model::format::{ModelLoadError, le_u32_at};

verus! {

/// A cursor over `bytes`: every read consumes bytes from the current
/// offset onwards.
pub struct BufferReader<'a> {
    bytes: &'a [u8],
    offset: usize,
}

impl<'a> BufferReader<'a> {
    /// The whole buffer.
    pub closed spec fn spec_bytes(self) -> Seq<u8> {
        self.bytes@
    }

    /// How many bytes have been consumed.
    pub closed spec fn spec_offset(self) -> nat {
        self.offset as nat
    }

    /// A reader positioned at the start of `bytes`.
    pub fn new(bytes: &'a [u8]) -> (r: Self)
        ensures
            r.spec_bytes() == bytes@,
            r.spec_offset() == 0,
    {
        BufferReader { bytes, offset: 0 }
    }

    /// Take the next `len` bytes.
    ///
    /// `Err(BufferTooSmall)` exactly when fewer than `len` bytes remain; the
    /// reader is then left unchanged.
    pub fn advance(&mut self, len: usize) -> (r: Result<&'a [u8], ModelLoadError>)
        requires
            old(self).spec_offset() + len <= usize::MAX,
        ensures
            final(self).spec_bytes() == old(self).spec_bytes(),
            old(self).spec_offset() + len > old(self).spec_bytes().len() ==> r == Err::<
                &'a [u8],
                ModelLoadError,
            >(ModelLoadError::BufferTooSmall) && final(self).spec_offset() == old(
                self,
            ).spec_offset(),
            old(self).spec_offset() + len <= old(self).spec_bytes().len() ==> r is Ok && r->Ok_0@
                == old(self).spec_bytes().subrange(
                old(self).spec_offset() as int,
                old(self).spec_offset() + len,
            ) && final(self).spec_offset() == old(self).spec_offset() + len,
    {
        if self.offset + len > self.bytes.len() {
            return Err(ModelLoadError::BufferTooSmall);
        }
        let slice = &self.bytes[self.offset..self.offset + len];
        self.offset = self.offset + len;
        Ok(slice)
    }

    /// Read an `R × C` matrix of `i8`, row-major, one byte per element.
    ///
    /// `Err(BufferTooSmall)` (reader unchanged) exactly when fewer than
    /// `R * C` bytes remain.
    pub fn extract_matrix<const R: usize, const C: usize>(&mut self) -> (r: Result<
        Matrix<i8, R, C>,
        ModelLoadError,
    >)
        requires
            R * C <= usize::MAX,
            old(self).spec_offset() + R * C <= usize::MAX,
        ensures
            final(self).spec_bytes() == old(self).spec_bytes(),
            old(self).spec_offset() + R * C > old(self).spec_bytes().len() ==> r == Err::<
                Matrix<i8, R, C>,
                ModelLoadError,
            >(ModelLoadError::BufferTooSmall) && final(self).spec_offset() == old(
                self,
            ).spec_offset(),
            old(self).spec_offset() + R * C <= old(self).spec_bytes().len() ==> {
                &&& r is Ok
                &&& final(self).spec_offset() == old(self).spec_offset() + R * C
                &&& forall|i: int, j: int|
                    0 <= i < R && 0 <= j < C ==> #[trigger] r->Ok_0.data[i][j] == old(
                        self,
                    ).spec_bytes()[old(self).spec_offset() + i * C + j] as i8
            },
    {
        let len = R * C;
        let slice = self.advance(len)?;
        let mut mat = Matrix::<i8, R, C>::zeros();
        let mut i: usize = 0;
        proof {
            assert(0 * C == 0);
        }
        for r in 0..R
            invariant
                slice@.len() == R * C,
                i == r * C,
                forall|x: int, y: int|
                    0 <= x < r && 0 <= y < C ==> #[trigger] mat.data[x][y] == slice@[x * C + y] as i8,
        {
            proof {
                assert((r + 1) * C <= R * C) by (nonlinear_arith)
                    requires
                        r < R,
                ;
                assert((r + 1) * C == r * C + C) by (nonlinear_arith);
            }
            for c in 0..C
                invariant
                    slice@.len() == R * C,
                    0 <= r < R,
                    (r + 1) * C <= R * C,
                    (r + 1) * C == r * C + C,
                    i == r * C + c,
                    forall|x: int, y: int|
                        0 <= x < R && 0 <= y < C && (x < r || (x == r && y < c))
                            ==> #[trigger] mat.data[x][y] == slice@[x * C + y] as i8,
            {
                mat.data[r][c] = slice[i] as i8;
                i = i + 1;
            }
        }
        proof {
            assert forall|x: int, y: int| 0 <= x < R && 0 <= y < C implies #[trigger] mat.data[x][y]
                == old(self).spec_bytes()[old(self).spec_offset() + x * C + y] as i8 by {
                assert(0 <= x * C + y < R * C) by (nonlinear_arith)
                    requires
                        0 <= x < R,
                        0 <= y < C,
                ;
            }
        }
        Ok(mat)
    }

    /// Read `N` bytes as an array of `i8`.
    ///
    /// `Err(BufferTooSmall)` (reader unchanged) exactly when fewer than `N`
    /// bytes remain.
    pub fn extract_array<const N: usize>(&mut self) -> (r: Result<[i8; N], ModelLoadError>)
        requires
            old(self).spec_offset() + N <= usize::MAX,
        ensures
            final(self).spec_bytes() == old(self).spec_bytes(),
            old(self).spec_offset() + N > old(self).spec_bytes().len() ==> r == Err::<
                [i8; N],
                ModelLoadError,
            >(ModelLoadError::BufferTooSmall) && final(self).spec_offset() == old(
                self,
            ).spec_offset(),
            old(self).spec_offset() + N <= old(self).spec_bytes().len() ==> {
                &&& r is Ok
                &&& final(self).spec_offset() == old(self).spec_offset() + N
                &&& forall|i: int|
                    0 <= i < N ==> #[trigger] r->Ok_0[i] == old(self).spec_bytes()[old(
                        self,
                    ).spec_offset() + i] as i8
            },
    {
        let slice = self.advance(N)?;
        let mut arr = [0i8; N];
        for i in 0..N
            invariant
                slice@.len() == N,
                forall|x: int| 0 <= x < i ==> #[trigger] arr[x] == slice@[x] as i8,
        {
            arr[i] = slice[i] as i8;
        }
        Ok(arr)
    }

    /// Read an `f32`, stored as 4 little-endian bytes, returning its bit
    /// pattern.
    ///
    /// `Err(BufferTooSmall)` (reader unchanged) exactly when fewer than 4
    /// bytes remain.
    pub fn extract_f32(&mut self) -> (r: Result<u32, ModelLoadError>)
        requires
            old(self).spec_offset() + 4 <= usize::MAX,
        ensures
            final(self).spec_bytes() == old(self).spec_bytes(),
            old(self).spec_offset() + 4 > old(self).spec_bytes().len() ==> r == Err::<
                u32,
                ModelLoadError,
            >(ModelLoadError::BufferTooSmall) && final(self).spec_offset() == old(
                self,
            ).spec_offset(),
            old(self).spec_offset() + 4 <= old(self).spec_bytes().len() ==> r == Ok::<
                u32,
                ModelLoadError,
            >(le_u32_at(old(self).spec_bytes(), old(self).spec_offset() as int))
                && final(self).spec_offset() == old(self).spec_offset() + 4,
    {
        let slice = self.advance(4)?;
        Ok(slice[0] as u32 + 256 * (slice[1] as u32) + 65536 * (slice[2] as u32) + 16777216 * (
        slice[3] as u32))
    }

    /// Read `N` consecutive `f32` values (bit patterns).
    ///
    /// Succeeds exactly when at least `4 * N` bytes remain. On failure the
    /// values that did fit have been consumed: the offset has moved by
    /// `4 * floor(remaining / 4)`.
    pub fn extract_f32_array<const N: usize>(&mut self) -> (r: Result<[u32; N], ModelLoadError>)
        requires
            old(self).spec_offset() <= old(self).spec_bytes().len(),
            old(self).spec_offset() + 4 * N + 4 <= usize::MAX,
        ensures
            final(self).spec_bytes() == old(self).spec_bytes(),
            old(self).spec_offset() + 4 * N > old(self).spec_bytes().len() ==> r == Err::<
                [u32; N],
                ModelLoadError,
            >(ModelLoadError::BufferTooSmall) && final(self).spec_offset() == old(
                self,
            ).spec_offset() + 4 * ((old(self).spec_bytes().len() - old(self).spec_offset()) / 4),
            old(self).spec_offset() + 4 * N <= old(self).spec_bytes().len() ==> {
                &&& r is Ok
                &&& final(self).spec_offset() == old(self).spec_offset() + 4 * N
                &&& forall|i: int|
                    0 <= i < N ==> #[trigger] r->Ok_0[i] == le_u32_at(
                        old(self).spec_bytes(),
                        old(self).spec_offset() + 4 * i,
                    )
            },
    {
        let ghost start = self.spec_offset();
        let ghost total = self.spec_bytes().len();
        let mut arr = [0u32; N];
        for i in 0..N
            invariant
                self.spec_bytes() == old(self).spec_bytes(),
                start == old(self).spec_offset(),
                total == self.spec_bytes().len(),
                start <= total,
                start + 4 * N + 4 <= usize::MAX,
                self.spec_offset() == start + 4 * i,
                start + 4 * i <= total,
                forall|x: int| 0 <= x < i ==> #[trigger] arr[x] == le_u32_at(self.spec_bytes(), start + 4 * x),
        {
            match self.extract_f32() {
                Ok(v) => {
                    arr[i] = v;
                },
                Err(e) => {
                    proof {
                        assert((total - start) / 4 == i) by (nonlinear_arith)
                            requires
                                start + 4 * i <= total,
                                start + 4 * i + 4 > total,
                        ;
                    }
                    return Err(e);
                },
            }
        }
        Ok(arr)
    }
}

} // verus!
