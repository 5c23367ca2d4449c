//! # Static widening matrix multiplication kernel
//!
//! `matmul_wide` multiplies two stack matrices `A: R×K`, `B: K×C` and returns
//! `Out: R×C` whose element type is `T::Accum`, wider than the input type.
//!
//! A tile size of 4 is used throughout (fits the register file of
//! Cortex-M4/M7 without spilling). Tiling changes only the order in which
//! cells are visited: every output cell still accumulates its products in
//! increasing `k` order, so the value of every partial sum is a prefix of the
//! dot product.

use vstd::prelude::*;
use super::accum::WideAccum;
use crate::matrix::Matrix;

verus! {

pub const TILE: usize = 4;

/// `sum_{k < n} a[i][k] * b[k][j]`, over the integers.
pub open spec fn dot_prefix<T: WideAccum, const R: usize, const K: usize, const C: usize>(
    a: Matrix<T, R, K>,
    b: Matrix<T, K, C>,
    i: int,
    j: int,
    n: int,
) -> int
    decreases n,
{
    if n <= 0 {
        0
    } else {
        dot_prefix(a, b, i, j, n - 1) + a.data[i][n - 1].value() * b.data[n - 1][j].value()
    }
}

/// Every product and every partial dot product of `a × b` fits in the
/// accumulator, so the widening kernel never overflows.
pub open spec fn wide_matmul_fits<T: WideAccum, const R: usize, const K: usize, const C: usize>(
    a: Matrix<T, R, K>,
    b: Matrix<T, K, C>,
) -> bool {
    &&& forall|i: int, k: int, j: int|
        0 <= i < R && 0 <= k < K && 0 <= j < C ==> T::accum_min() <= #[trigger] (
        a.data[i][k].value() * b.data[k][j].value()) <= T::accum_max()
    &&& forall|i: int, j: int, n: int|
        0 <= i < R && 0 <= j < C && 0 <= n <= K ==> T::accum_min() <= #[trigger] dot_prefix(
            a,
            b,
            i,
            j,
            n,
        ) <= T::accum_max()
}

/// Cell `(r, c)` of `out` holds the first `n` terms of the dot product.
pub open spec fn cell_holds<T: WideAccum, const R: usize, const K: usize, const C: usize>(
    out: Matrix<T::Accum, R, C>,
    a: Matrix<T, R, K>,
    b: Matrix<T, K, C>,
    r: int,
    c: int,
    n: int,
) -> bool {
    T::accum_value(out.data[r][c]) == dot_prefix(a, b, r, c, n)
}

/// Each `i8 × i8` product lies in `[-16256, 16384]`, so a dot product of
/// length `n` lies in `[-16384 n, 16384 n]`.
pub proof fn lemma_i8_dot_prefix_bound<const R: usize, const K: usize, const C: usize>(
    a: Matrix<i8, R, K>,
    b: Matrix<i8, K, C>,
    i: int,
    j: int,
    n: int,
)
    requires
        0 <= i < R,
        0 <= j < C,
        0 <= n <= K,
    ensures
        -16384 * n <= dot_prefix(a, b, i, j, n) <= 16384 * n,
    decreases n,
{
    if n > 0 {
        lemma_i8_dot_prefix_bound(a, b, i, j, n - 1);
        let x = a.data[i][n - 1] as int;
        let y = b.data[n - 1][j] as int;
        assert(-16384 <= x * y <= 16384) by (nonlinear_arith)
            requires
                -128 <= x <= 127,
                -128 <= y <= 127,
        ;
    }
}

/// `i8 × i8 → i32` never overflows while the inner dimension `K` is at most
/// `131071` (`K × 128² ≤ i32::MAX`), whatever the matrix contents.
pub proof fn lemma_i8_matmul_fits<const R: usize, const K: usize, const C: usize>(
    a: Matrix<i8, R, K>,
    b: Matrix<i8, K, C>,
)
    requires
        K * 16384 <= i32::MAX,
    ensures
        wide_matmul_fits(a, b),
{
    assert forall|i: int, k: int, j: int| 0 <= i < R && 0 <= k < K && 0 <= j < C implies i32::MIN
        <= #[trigger] (a.data[i][k].value() * b.data[k][j].value()) <= i32::MAX by {
        let x = a.data[i][k] as int;
        let y = b.data[k][j] as int;
        assert(-16384 <= x * y <= 16384) by (nonlinear_arith)
            requires
                -128 <= x <= 127,
                -128 <= y <= 127,
        ;
    }
    assert forall|i: int, j: int, n: int| 0 <= i < R && 0 <= j < C && 0 <= n <= K implies i32::MIN
        <= #[trigger] dot_prefix(a, b, i, j, n) <= i32::MAX by {
        lemma_i8_dot_prefix_bound(a, b, i, j, n);
    }
}

/// A partial dot product against an identity matrix picks out one element
/// of the left operand, once the diagonal position has been passed.
proof fn lemma_dot_prefix_identity<T: WideAccum, const R: usize, const K: usize>(
    a: Matrix<T, R, K>,
    b: Matrix<T, K, K>,
    i: int,
    j: int,
    n: int,
)
    requires
        0 <= i < R,
        0 <= j < K,
        0 <= n <= K,
        forall|x: int, y: int|
            0 <= x < K && 0 <= y < K ==> #[trigger] b.data[x][y].value() == if x == y {
                1int
            } else {
                0int
            },
    ensures
        dot_prefix(a, b, i, j, n) == if j < n {
            a.data[i][j].value()
        } else {
            0
        },
    decreases n,
{
    if n > 0 {
        lemma_dot_prefix_identity(a, b, i, j, n - 1);
        assert(b.data[n - 1][j].value() == if n - 1 == j {
            1int
        } else {
            0int
        });
    }
}

/// Multiplying by an identity matrix gives the left operand back: when `b`
/// holds 1 on its diagonal and 0 elsewhere, every cell of `a × b` (the
/// full dot product that [`matmul_wide`] returns) equals the matching cell
/// of `a`.
pub proof fn lemma_matmul_wide_identity<T: WideAccum, const R: usize, const K: usize>(
    a: Matrix<T, R, K>,
    b: Matrix<T, K, K>,
)
    requires
        forall|x: int, y: int|
            0 <= x < K && 0 <= y < K ==> #[trigger] b.data[x][y].value() == if x == y {
                1int
            } else {
                0int
            },
    ensures
        forall|i: int, j: int|
            0 <= i < R && 0 <= j < K ==> #[trigger] dot_prefix(a, b, i, j, K as int) == a.data[i][j].value(),
{
    assert forall|i: int, j: int| 0 <= i < R && 0 <= j < K implies #[trigger] dot_prefix(
        a,
        b,
        i,
        j,
        K as int,
    ) == a.data[i][j].value() by {
        lemma_dot_prefix_identity(a, b, i, j, K as int);
    }
}

/// `min(start + TILE, limit)`.
fn tile_end(start: usize, limit: usize) -> (e: usize)
    requires
        start <= usize::MAX - TILE,
    ensures
        e == if start + TILE < limit {
            start + TILE
        } else {
            limit as int
        },
{
    let end = start + TILE;
    if end < limit {
        end
    } else {
        limit
    }
}

/// Multiply `a` (R×K) by `b` (K×C), accumulating into the wider type.
///
/// Every output cell `(i, j)` is the exact integer dot product of row `i`
/// of `a` and column `j` of `b`.
pub fn matmul_wide<T, const R: usize, const K: usize, const C: usize>(
    a: &Matrix<T, R, K>,
    b: &Matrix<T, K, C>,
) -> (out: Matrix<T::Accum, R, C>) where T: WideAccum, T::Accum: Copy + Default
    requires
        R <= usize::MAX - TILE,
        K <= usize::MAX - TILE,
        C <= usize::MAX - TILE,
        wide_matmul_fits(*a, *b),
    ensures
        forall|i: int, j: int|
            0 <= i < R && 0 <= j < C ==> #[trigger] T::accum_value(out.data[i][j]) == dot_prefix(
                *a,
                *b,
                i,
                j,
                K as int,
            ),
{
    let mut out = Matrix::<T::Accum, R, C>::zeros();
    proof {
        assert forall|r: int, c: int| 0 <= r < R && 0 <= c < C implies T::accum_value(
            #[trigger] out.data[r][c],
        ) == 0 by {
            T::lemma_default_is_zero(out.data[r][c]);
        }
    }
    let ghost ga = *a;
    let ghost gb = *b;

    let mut i: usize = 0;
    while i < R
        invariant
            R <= usize::MAX - TILE,
            K <= usize::MAX - TILE,
            C <= usize::MAX - TILE,
            ga == *a,
            gb == *b,
            wide_matmul_fits(ga, gb),
            i <= R + TILE,
            forall|r: int, c: int|
#![trigger out.data[r][c]]
                0 <= r < R && 0 <= c < C ==> cell_holds(
                    out,
                    ga,
                    gb,
                    r,
                    c,
                    if r < i {
                        K as int
                    } else {
                        0
                    },
                ),
        decreases R + TILE - i,
    {
        let i_end = tile_end(i, R);
        let mut k: usize = 0;
        while k < K
            invariant
                R <= usize::MAX - TILE,
                K <= usize::MAX - TILE,
                C <= usize::MAX - TILE,
                ga == *a,
                gb == *b,
                wide_matmul_fits(ga, gb),
                i < R,
                i_end <= R,
                i < i_end,
                i_end <= i + TILE,
                k <= K + TILE,
                forall|r: int, c: int|
#![trigger out.data[r][c]]
                    0 <= r < R && 0 <= c < C ==> cell_holds(
                        out,
                        ga,
                        gb,
                        r,
                        c,
                        if r < i {
                            K as int
                        } else if r < i_end {
                            if k < K {
                                k as int
                            } else {
                                K as int
                            }
                        } else {
                            0
                        },
                    ),
            decreases K + TILE - k,
        {
            let k_end = tile_end(k, K);
            let mut j: usize = 0;
            while j < C
                invariant
                    R <= usize::MAX - TILE,
                    K <= usize::MAX - TILE,
                    C <= usize::MAX - TILE,
                    ga == *a,
                    gb == *b,
                    wide_matmul_fits(ga, gb),
                    i < R,
                    i_end <= R,
                    i < i_end,
                    k < K,
                    k_end <= K,
                    k < k_end,
                    j <= C + TILE,
                    forall|r: int, c: int|
#![trigger out.data[r][c]]
                        0 <= r < R && 0 <= c < C ==> cell_holds(
                            out,
                            ga,
                            gb,
                            r,
                            c,
                            if r < i {
                                K as int
                            } else if r < i_end {
                                if c < j {
                                    k_end as int
                                } else {
                                    k as int
                                }
                            } else {
                                0
                            },
                        ),
                decreases C + TILE - j,
            {
                let j_end = tile_end(j, C);

                // ── 4×4 tile kernel ──────────────────────────────────────
                let mut ii: usize = i;
                while ii < i_end
                    invariant
                        R <= usize::MAX - TILE,
                        K <= usize::MAX - TILE,
                        C <= usize::MAX - TILE,
                        ga == *a,
                        gb == *b,
                        wide_matmul_fits(ga, gb),
                        i_end <= R,
                        i <= ii <= i_end,
                        k < k_end <= K,
                        j < j_end <= C,
                        forall|r: int, c: int|
#![trigger out.data[r][c]]
                            0 <= r < R && 0 <= c < C ==> cell_holds(
                                out,
                                ga,
                                gb,
                                r,
                                c,
                                if r < i {
                                    K as int
                                } else if r < i_end {
                                    if c < j {
                                        k_end as int
                                    } else if c < j_end {
                                        if r < ii {
                                            k_end as int
                                        } else {
                                            k as int
                                        }
                                    } else {
                                        k as int
                                    }
                                } else {
                                    0
                                },
                            ),
                    decreases i_end - ii,
                {
                    let mut kk: usize = k;
                    while kk < k_end
                        invariant
                            R <= usize::MAX - TILE,
                            K <= usize::MAX - TILE,
                            C <= usize::MAX - TILE,
                            ga == *a,
                            gb == *b,
                            wide_matmul_fits(ga, gb),
                            i_end <= R,
                            i <= ii < i_end,
                            k <= kk <= k_end,
                            k_end <= K,
                            j < j_end <= C,
                            forall|r: int, c: int|
#![trigger out.data[r][c]]
                                0 <= r < R && 0 <= c < C ==> cell_holds(
                                    out,
                                    ga,
                                    gb,
                                    r,
                                    c,
                                    if r < i {
                                        K as int
                                    } else if r < i_end {
                                        if c < j {
                                            k_end as int
                                        } else if c < j_end {
                                            if r < ii {
                                                k_end as int
                                            } else if r == ii {
                                                kk as int
                                            } else {
                                                k as int
                                            }
                                        } else {
                                            k as int
                                        }
                                    } else {
                                        0
                                    },
                                ),
                        decreases k_end - kk,
                    {
                        // widen once per (ii, kk) pair — reused across the j-tile
                        let a_wide = a.data[ii][kk].widen();
                        let mut jj: usize = j;
                        while jj < j_end
                            invariant
                                R <= usize::MAX - TILE,
                                K <= usize::MAX - TILE,
                                C <= usize::MAX - TILE,
                                ga == *a,
                                gb == *b,
                                wide_matmul_fits(ga, gb),
                                i_end <= R,
                                i <= ii < i_end,
                                k <= kk < k_end,
                                k_end <= K,
                                j <= jj <= j_end,
                                j_end <= C,
                                T::accum_value(a_wide) == ga.data[ii as int][kk as int].value(),
                                forall|r: int, c: int|
#![trigger out.data[r][c]]
                                    0 <= r < R && 0 <= c < C ==> cell_holds(
                                        out,
                                        ga,
                                        gb,
                                        r,
                                        c,
                                        if r < i {
                                            K as int
                                        } else if r < i_end {
                                            if c < j {
                                                k_end as int
                                            } else if c < j_end {
                                                if r < ii {
                                                    k_end as int
                                                } else if r == ii {
                                                    if c < jj {
                                                        kk + 1
                                                    } else {
                                                        kk as int
                                                    }
                                                } else {
                                                    k as int
                                                }
                                            } else {
                                                k as int
                                            }
                                        } else {
                                            0
                                        },
                                    ),
                            decreases j_end - jj,
                        {
                            let b_wide = b.data[kk][jj].widen();
                            proof {
                                assert(cell_holds(out, ga, gb, ii as int, jj as int, kk as int));
                                assert(T::accum_min() <= ga.data[ii as int][kk as int].value()
                                    * gb.data[kk as int][jj as int].value() <= T::accum_max());
                                assert(T::accum_min() <= dot_prefix(
                                    ga,
                                    gb,
                                    ii as int,
                                    jj as int,
                                    kk + 1,
                                ) <= T::accum_max());
                            }
                            let prod = T::accum_mul(a_wide, b_wide);
                            let prev = out.data[ii][jj];
                            let ghost old_out = out;
                            out.data[ii][jj] = T::accum_add(prev, prod);
                            proof {
                                assert forall|r: int, c: int|
#![trigger out.data[r][c]]
                                    0 <= r < R && 0 <= c < C && (r != ii || c != jj) implies out.data[r][c]
                                    == old_out.data[r][c] by {}
                            }
                            jj = jj + 1;
                        }
                        kk = kk + 1;
                    }
                    ii = ii + 1;
                }
                j = j + TILE;
            }
            k = k + TILE;
        }
        i = i + TILE;
    }
    out
}

} // verus!
