//! # matmul_engine
//!
//! A `no_std`-style integer matrix multiplication engine with **accumulator
//! type separation** — narrow inputs, wide accumulators — and the quantized
//! inference pipeline built on it.
//!
//! ```text
//! Classic:    T  ×  T  →  T          (overflow-prone)
//! This crate: T  ×  T  →  T::Accum  (safe, CMSIS-NN style)
//! ```

pub mod kernel;
pub mod matrix;
pub mod quant;
pub mod model;
pub mod nn;
pub mod runtime;
pub mod testing;

pub use kernel::accum::WideAccum;
pub use kernel::static_wide::matmul_wide;
pub use kernel::dyn_wide::dyn_matmul_wide;
pub use matrix::{Matrix, MatMulScalar, DynMatrix};

use vstd::prelude::*;

verus! {

pub const TILE: usize = 4;

/// `sum_{k < n} a[i][k] * b[k][j]`, over the integers.
pub open spec fn scalar_dot_prefix<T: MatMulScalar, const R: usize, const K: usize, const C: usize>(
    a: Matrix<T, R, K>,
    b: Matrix<T, K, C>,
    i: int,
    j: int,
    n: int,
) -> int
    decreases n,
{
    if n <= 0 {
        0
    } else {
        scalar_dot_prefix(a, b, i, j, n - 1) + a.data[i][n - 1].sval() * b.data[n - 1][j].sval()
    }
}

/// Every product and every partial dot product of `a × b` fits in `T`.
pub open spec fn scalar_matmul_fits<T: MatMulScalar, const R: usize, const K: usize, const C: usize>(
    a: Matrix<T, R, K>,
    b: Matrix<T, K, C>,
) -> bool {
    &&& forall|i: int, k: int, j: int|
        0 <= i < R && 0 <= k < K && 0 <= j < C ==> T::smin() <= #[trigger] (
        a.data[i][k].sval() * b.data[k][j].sval()) <= T::smax()
    &&& forall|i: int, j: int, n: int|
        0 <= i < R && 0 <= j < C && 0 <= n <= K ==> T::smin() <= #[trigger] scalar_dot_prefix(
            a,
            b,
            i,
            j,
            n,
        ) <= T::smax()
}

/// Cell `(r, c)` of `out` holds the first `n` terms of the dot product.
pub open spec fn scalar_cell_holds<T: MatMulScalar, const R: usize, const K: usize, const C: usize>(
    out: Matrix<T, R, C>,
    a: Matrix<T, R, K>,
    b: Matrix<T, K, C>,
    r: int,
    c: int,
    n: int,
) -> bool {
    out.data[r][c].sval() == scalar_dot_prefix(a, b, r, c, n)
}

/// The homogeneous and the widening kernels compute the same dot products
/// on any element type whose two integer readings agree: wherever
/// [`matmul`] does not overflow, each of its cells equals the value of the
/// matching cell of [`matmul_wide`].
pub proof fn lemma_matmul_agrees_with_wide<
    T: MatMulScalar + WideAccum,
    const R: usize,
    const K: usize,
    const C: usize,
>(a: Matrix<T, R, K>, b: Matrix<T, K, C>, i: int, j: int, n: int)
    requires
        forall|x: T| #[trigger] x.sval() == x.value(),
    ensures
        scalar_dot_prefix(a, b, i, j, n) == kernel::static_wide::dot_prefix(a, b, i, j, n),
    decreases n,
{
    if n > 0 {
        lemma_matmul_agrees_with_wide(a, b, i, j, n - 1);
        assert(a.data[i][n - 1].sval() == a.data[i][n - 1].value());
        assert(b.data[n - 1][j].sval() == b.data[n - 1][j].value());
    }
}

/// `min(start + TILE, limit)`.
fn te(start: usize, limit: usize) -> (e: usize)
    requires
        start <= usize::MAX - TILE,
    ensures
        e == if start + TILE < limit {
            start + TILE
        } else {
            limit as int
        },
{
    let e = start + TILE;
    if e < limit {
        e
    } else {
        limit
    }
}

/// Homogeneous multiply: inputs and output share the element type `T`.
///
/// Every output cell `(i, j)` is the exact integer dot product of row `i`
/// of `a` and column `j` of `b`; every product and partial sum must fit in
/// `T` (use `matmul_wide` when that is a concern).
pub fn matmul<T, const R: usize, const K: usize, const C: usize>(
    a: &Matrix<T, R, K>,
    b: &Matrix<T, K, C>,
) -> (out: Matrix<T, R, C>) where T: MatMulScalar
    requires
        R <= usize::MAX - TILE,
        K <= usize::MAX - TILE,
        C <= usize::MAX - TILE,
        scalar_matmul_fits(*a, *b),
    ensures
        forall|i: int, j: int|
            0 <= i < R && 0 <= j < C ==> #[trigger] out.data[i][j].sval() == scalar_dot_prefix(
                *a,
                *b,
                i,
                j,
                K as int,
            ),
{
    let mut out = Matrix::<T, R, C>::zeros();
    proof {
        assert forall|r: int, c: int| 0 <= r < R && 0 <= c < C implies (#[trigger] out.data[r][c]).sval() == 0 by {
            T::lemma_default_is_zero(out.data[r][c]);
        }
    }
    let ghost ga = *a;
    let ghost gb = *b;

    let mut i: usize = 0;
    while i < R
        invariant
            R <= usize::MAX - TILE,
            K <= usize::MAX - TILE,
            C <= usize::MAX - TILE,
            ga == *a,
            gb == *b,
            scalar_matmul_fits(ga, gb),
            i <= R + TILE,
            forall|r: int, c: int|
#![trigger out.data[r][c]]
                0 <= r < R && 0 <= c < C ==> scalar_cell_holds(
                    out,
                    ga,
                    gb,
                    r,
                    c,
                    if r < i {
                        K as int
                    } else {
                        0
                    },
                ),
        decreases R + TILE - i,
    {
        let i_end = te(i, R);
        let mut k: usize = 0;
        while k < K
            invariant
                R <= usize::MAX - TILE,
                K <= usize::MAX - TILE,
                C <= usize::MAX - TILE,
                ga == *a,
                gb == *b,
                scalar_matmul_fits(ga, gb),
                i < R,
                i_end <= R,
                i < i_end,
                i_end <= i + TILE,
                k <= K + TILE,
                forall|r: int, c: int|
#![trigger out.data[r][c]]
                    0 <= r < R && 0 <= c < C ==> scalar_cell_holds(
                        out,
                        ga,
                        gb,
                        r,
                        c,
                        if r < i {
                            K as int
                        } else if r < i_end {
                            if k < K {
                                k as int
                            } else {
                                K as int
                            }
                        } else {
                            0
                        },
                    ),
            decreases K + TILE - k,
        {
            let k_end = te(k, K);
            let mut j: usize = 0;
            while j < C
                invariant
                    R <= usize::MAX - TILE,
                    K <= usize::MAX - TILE,
                    C <= usize::MAX - TILE,
                    ga == *a,
                    gb == *b,
                    scalar_matmul_fits(ga, gb),
                    i < R,
                    i_end <= R,
                    i < i_end,
                    k < K,
                    k_end <= K,
                    k < k_end,
                    j <= C + TILE,
                    forall|r: int, c: int|
#![trigger out.data[r][c]]
                        0 <= r < R && 0 <= c < C ==> scalar_cell_holds(
                            out,
                            ga,
                            gb,
                            r,
                            c,
                            if r < i {
                                K as int
                            } else if r < i_end {
                                if c < j {
                                    k_end as int
                                } else {
                                    k as int
                                }
                            } else {
                                0
                            },
                        ),
                decreases C + TILE - j,
            {
                let j_end = te(j, C);

                // ── 4×4 tile kernel ──────────────────────────────────────
                let mut ii: usize = i;
                while ii < i_end
                    invariant
                        R <= usize::MAX - TILE,
                        K <= usize::MAX - TILE,
                        C <= usize::MAX - TILE,
                        ga == *a,
                        gb == *b,
                        scalar_matmul_fits(ga, gb),
                        i_end <= R,
                        i <= ii <= i_end,
                        k < k_end <= K,
                        j < j_end <= C,
                        forall|r: int, c: int|
#![trigger out.data[r][c]]
                            0 <= r < R && 0 <= c < C ==> scalar_cell_holds(
                                out,
                                ga,
                                gb,
                                r,
                                c,
                                if r < i {
                                    K as int
                                } else if r < i_end {
                                    if c < j {
                                        k_end as int
                                    } else if c < j_end {
                                        if r < ii {
                                            k_end as int
                                        } else {
                                            k as int
                                        }
                                    } else {
                                        k as int
                                    }
                                } else {
                                    0
                                },
                            ),
                    decreases i_end - ii,
                {
                    let mut kk: usize = k;
                    while kk < k_end
                        invariant
                            R <= usize::MAX - TILE,
                            K <= usize::MAX - TILE,
                            C <= usize::MAX - TILE,
                            ga == *a,
                            gb == *b,
                            scalar_matmul_fits(ga, gb),
                            i_end <= R,
                            i <= ii < i_end,
                            k <= kk <= k_end,
                            k_end <= K,
                            j < j_end <= C,
                            forall|r: int, c: int|
#![trigger out.data[r][c]]
                                0 <= r < R && 0 <= c < C ==> scalar_cell_holds(
                                    out,
                                    ga,
                                    gb,
                                    r,
                                    c,
                                    if r < i {
                                        K as int
                                    } else if r < i_end {
                                        if c < j {
                                            k_end as int
                                        } else if c < j_end {
                                            if r < ii {
                                                k_end as int
                                            } else if r == ii {
                                                kk as int
                                            } else {
                                                k as int
                                            }
                                        } else {
                                            k as int
                                        }
                                    } else {
                                        0
                                    },
                                ),
                        decreases k_end - kk,
                    {
                        let a_ik = a.data[ii][kk];
                        let mut jj: usize = j;
                        while jj < j_end
                            invariant
                                R <= usize::MAX - TILE,
                                K <= usize::MAX - TILE,
                                C <= usize::MAX - TILE,
                                ga == *a,
                                gb == *b,
                                scalar_matmul_fits(ga, gb),
                                i_end <= R,
                                i <= ii < i_end,
                                k <= kk < k_end,
                                k_end <= K,
                                j <= jj <= j_end,
                                j_end <= C,
                                a_ik == ga.data[ii as int][kk as int],
                                forall|r: int, c: int|
#![trigger out.data[r][c]]
                                    0 <= r < R && 0 <= c < C ==> scalar_cell_holds(
                                        out,
                                        ga,
                                        gb,
                                        r,
                                        c,
                                        if r < i {
                                            K as int
                                        } else if r < i_end {
                                            if c < j {
                                                k_end as int
                                            } else if c < j_end {
                                                if r < ii {
                                                    k_end as int
                                                } else if r == ii {
                                                    if c < jj {
                                                        kk + 1
                                                    } else {
                                                        kk as int
                                                    }
                                                } else {
                                                    k as int
                                                }
                                            } else {
                                                k as int
                                            }
                                        } else {
                                            0
                                        },
                                    ),
                            decreases j_end - jj,
                        {
                            
                            proof {
                                assert(scalar_cell_holds(out, ga, gb, ii as int, jj as int, kk as int));
                                assert(T::smin() <= ga.data[ii as int][kk as int].sval()
                                    * gb.data[kk as int][jj as int].sval() <= T::smax());
                                assert(T::smin() <= scalar_dot_prefix(
                                    ga,
                                    gb,
                                    ii as int,
                                    jj as int,
                                    kk + 1,
                                ) <= T::smax());
                            }
                            let prod = a_ik.smul(b.data[kk][jj]);
                            let prev = out.data[ii][jj];
                            let ghost old_out = out;
                            out.data[ii][jj] = prev.sadd(prod);
                            proof {
                                assert forall|r: int, c: int|
#![trigger out.data[r][c]]
                                    0 <= r < R && 0 <= c < C && (r != ii || c != jj) implies out.data[r][c]
                                    == old_out.data[r][c] by {}
                            }
                            jj = jj + 1;
                        }
                        kk = kk + 1;
                    }
                    ii = ii + 1;
                }
                j = j + TILE;
            }
            k = k + TILE;
        }
        i = i + TILE;
    }
    out
}

} // verus!
