//! # Dynamic widening matrix multiplication kernel
//!
//! Heap-backed equivalent of `static_wide::matmul_wide`: same tiling, same
//! `WideAccum` widening, sizes known only at run time.

use vstd::prelude::*;
use super::accum::WideAccum;
use super::static_wide::{dot_prefix, wide_matmul_fits};
use crate::matrix::{DynMatrix, Matrix};

verus! {

pub const TILE: usize = 4;

/// `sum_{k < n} a(i, k) * b(k, j)`, over the integers.
pub open spec fn dyn_dot_prefix<T: WideAccum>(
    a: DynMatrix<T>,
    b: DynMatrix<T>,
    i: int,
    j: int,
    n: int,
) -> int
    decreases n,
{
    if n <= 0 {
        0
    } else {
        dyn_dot_prefix(a, b, i, j, n - 1) + a.entry(i, n - 1).value() * b.entry(n - 1, j).value()
    }
}

/// Every product and every partial dot product of `a × b` fits in the
/// accumulator.
pub open spec fn dyn_wide_matmul_fits<T: WideAccum>(a: DynMatrix<T>, b: DynMatrix<T>) -> bool {
    &&& forall|i: int, k: int, j: int|
        0 <= i < a.spec_rows() && 0 <= k < a.spec_cols() && 0 <= j < b.spec_cols()
            ==> T::accum_min() <= #[trigger] (a.entry(i, k).value() * b.entry(k, j).value())
            <= T::accum_max()
    &&& forall|i: int, j: int, n: int|
        0 <= i < a.spec_rows() && 0 <= j < b.spec_cols() && 0 <= n <= a.spec_cols()
            ==> T::accum_min() <= #[trigger] dyn_dot_prefix(a, b, i, j, n) <= T::accum_max()
}

/// In a `rows × cols` row-major layout, `(r, c)` has flat index
/// `r * cols + c`, which is in bounds and different for different cells.
pub proof fn lemma_flat_index(rows: int, cols: int, r: int, c: int, r2: int, c2: int)
    requires
        0 <= r < rows,
        0 <= c < cols,
        0 <= r2 < rows,
        0 <= c2 < cols,
    ensures
        0 <= r * cols + c < rows * cols,
        (r * cols + c == r2 * cols + c2) <==> (r == r2 && c == c2),
{
    assert(0 <= r * cols + c < rows * cols) by (nonlinear_arith)
        requires
            0 <= r < rows,
            0 <= c < cols,
    ;
    if r < r2 {
        assert(r * cols + c < r2 * cols + c2) by (nonlinear_arith)
            requires
                r < r2,
                0 <= c < cols,
                0 <= c2,
        ;
    } else if r2 < r {
        assert(r2 * cols + c2 < r * cols + c) by (nonlinear_arith)
            requires
                r2 < r,
                0 <= c2 < cols,
                0 <= c,
        ;
    }
}

/// The heap-backed and the stack kernels compute the same dot products:
/// when `da` and `db` hold the elements of `a` and `b`, every partial dot
/// product [`dyn_matmul_wide`] accumulates equals the one
/// [`super::static_wide::matmul_wide`] accumulates.
pub proof fn lemma_dyn_matches_static<T: WideAccum, const R: usize, const K: usize, const C: usize>(
    a: Matrix<T, R, K>,
    b: Matrix<T, K, C>,
    da: DynMatrix<T>,
    db: DynMatrix<T>,
    i: int,
    j: int,
    n: int,
)
    requires
        da.spec_rows() == R,
        da.spec_cols() == K,
        db.spec_rows() == K,
        db.spec_cols() == C,
        forall|r: int, c: int| 0 <= r < R && 0 <= c < K ==> #[trigger] da.entry(r, c) == a.data[r][c],
        forall|r: int, c: int| 0 <= r < K && 0 <= c < C ==> #[trigger] db.entry(r, c) == b.data[r][c],
        0 <= i < R,
        0 <= j < C,
        n <= K,
    ensures
        dyn_dot_prefix(da, db, i, j, n) == dot_prefix(a, b, i, j, n),
    decreases n,
{
    if n > 0 {
        lemma_dyn_matches_static(a, b, da, db, i, j, n - 1);
        assert(da.entry(i, n - 1) == a.data[i][n - 1]);
        assert(db.entry(n - 1, j) == b.data[n - 1][j]);
    }
}

/// On matrices holding the same elements, [`dyn_matmul_wide`] and
/// [`super::static_wide::matmul_wide`] agree: the dynamic pair fits the
/// accumulator whenever the static pair does, and every cell of the
/// dynamic product has the value of the same cell of the static one.
pub proof fn lemma_dyn_matmul_matches_static<T: WideAccum, const R: usize, const K: usize, const C: usize>(
    a: Matrix<T, R, K>,
    b: Matrix<T, K, C>,
    da: DynMatrix<T>,
    db: DynMatrix<T>,
)
    requires
        da.spec_rows() == R,
        da.spec_cols() == K,
        db.spec_rows() == K,
        db.spec_cols() == C,
        forall|r: int, c: int| 0 <= r < R && 0 <= c < K ==> #[trigger] da.entry(r, c) == a.data[r][c],
        forall|r: int, c: int| 0 <= r < K && 0 <= c < C ==> #[trigger] db.entry(r, c) == b.data[r][c],
    ensures
        wide_matmul_fits(a, b) ==> dyn_wide_matmul_fits(da, db),
        forall|i: int, j: int|
            0 <= i < R && 0 <= j < C ==> #[trigger] dyn_dot_prefix(da, db, i, j, K as int) == dot_prefix(
                a,
                b,
                i,
                j,
                K as int,
            ),
{
    assert forall|i: int, j: int| 0 <= i < R && 0 <= j < C implies #[trigger] dyn_dot_prefix(
        da,
        db,
        i,
        j,
        K as int,
    ) == dot_prefix(a, b, i, j, K as int) by {
        lemma_dyn_matches_static(a, b, da, db, i, j, K as int);
    }
    if wide_matmul_fits(a, b) {
        assert forall|i: int, k: int, j: int|
            0 <= i < da.spec_rows() && 0 <= k < da.spec_cols() && 0 <= j < db.spec_cols()
                implies T::accum_min() <= #[trigger] (da.entry(i, k).value() * db.entry(k, j).value())
                <= T::accum_max() by {
            assert(da.entry(i, k) == a.data[i][k]);
            assert(db.entry(k, j) == b.data[k][j]);
            assert(T::accum_min() <= a.data[i][k].value() * b.data[k][j].value() <= T::accum_max());
        }
        assert forall|i: int, j: int, n: int|
            0 <= i < da.spec_rows() && 0 <= j < db.spec_cols() && 0 <= n <= da.spec_cols()
                implies T::accum_min() <= #[trigger] dyn_dot_prefix(da, db, i, j, n)
                <= T::accum_max() by {
            lemma_dyn_matches_static(a, b, da, db, i, j, n);
            assert(T::accum_min() <= dot_prefix(a, b, i, j, n) <= T::accum_max());
        }
    }
}

/// `min(start + TILE, limit)`.
fn tile_end(start: usize, limit: usize) -> (e: usize)
    requires
        start <= usize::MAX - TILE,
    ensures
        e == if start + TILE < limit {
            start + TILE
        } else {
            limit as int
        },
{
    let end = start + TILE;
    if end < limit {
        end
    } else {
        limit
    }
}

/// The cell `(r, c)` of `out` holds the first `n` terms of the dot product.
pub open spec fn dyn_cell_holds<T: WideAccum>(
    out: DynMatrix<T::Accum>,
    a: DynMatrix<T>,
    b: DynMatrix<T>,
    r: int,
    c: int,
    n: int,
) -> bool {
    T::accum_value(out.entry(r, c)) == dyn_dot_prefix(a, b, r, c, n)
}

/// Multiply `a` by `b` with widening accumulation.
///
/// The inner dimensions must match (a mismatch is a caller error). The
/// result is `a.rows() × b.cols()` and every cell is the exact integer dot
/// product of a row of `a` and a column of `b`.
pub fn dyn_matmul_wide<T>(a: &DynMatrix<T>, b: &DynMatrix<T>) -> (out: DynMatrix<T::Accum>) where
    T: WideAccum + Default,
    T::Accum: Copy + Default,

    requires
        a.spec_cols() == b.spec_rows(),
        a.spec_rows() <= usize::MAX - TILE,
        a.spec_cols() <= usize::MAX - TILE,
        b.spec_cols() <= usize::MAX - TILE,
        a.spec_rows() * b.spec_cols() <= usize::MAX,
        dyn_wide_matmul_fits(*a, *b),
    ensures
        out.spec_rows() == a.spec_rows(),
        out.spec_cols() == b.spec_cols(),
        out@.len() == a.spec_rows() * b.spec_cols(),
        forall|i: int, j: int|
            0 <= i < a.spec_rows() && 0 <= j < b.spec_cols() ==> #[trigger] T::accum_value(
                out.entry(i, j),
            ) == dyn_dot_prefix(*a, *b, i, j, a.spec_cols() as int),
{
    let r = a.rows();
    let k = a.cols();
    let c = b.cols();
    let _ = b.rows();
    let mut out = DynMatrix::<T::Accum>::zeros(r, c);
    proof {
        assert forall|x: int, y: int| 0 <= x < r && 0 <= y < c implies dyn_cell_holds(
            out,
            *a,
            *b,
            x,
            y,
            0,
        ) by {
            lemma_flat_index(r as int, c as int, x, y, x, y);
            T::lemma_default_is_zero(out.entry(x, y));
        }
    }

    let mut i: usize = 0;
    while i < r
        invariant
            r == a.spec_rows(),
            k == a.spec_cols(),
            k == b.spec_rows(),
            c == b.spec_cols(),
            a@.len() == r * k,
            b@.len() == k * c,
            r <= usize::MAX - TILE,
            k <= usize::MAX - TILE,
            c <= usize::MAX - TILE,
            dyn_wide_matmul_fits(*a, *b),
            out.spec_rows() == r,
            out.spec_cols() == c,
            out@.len() == r * c,
            i <= r + TILE,
            forall|x: int, y: int|
                #![trigger out.entry(x, y)]
                0 <= x < r && 0 <= y < c ==> dyn_cell_holds(
                    out,
                    *a,
                    *b,
                    x,
                    y,
                    if x < i {
                        k as int
                    } else {
                        0
                    },
                ),
        decreases r + TILE - i,
    {
        let i_end = tile_end(i, r);
        let mut kk: usize = 0;
        while kk < k
            invariant
                r == a.spec_rows(),
                k == a.spec_cols(),
                k == b.spec_rows(),
                c == b.spec_cols(),
                a@.len() == r * k,
                b@.len() == k * c,
                r <= usize::MAX - TILE,
                k <= usize::MAX - TILE,
                c <= usize::MAX - TILE,
                dyn_wide_matmul_fits(*a, *b),
                out.spec_rows() == r,
                out.spec_cols() == c,
                out@.len() == r * c,
                i < i_end <= r,
                kk <= k + TILE,
                forall|x: int, y: int|
                    #![trigger out.entry(x, y)]
                    0 <= x < r && 0 <= y < c ==> dyn_cell_holds(
                        out,
                        *a,
                        *b,
                        x,
                        y,
                        if x < i {
                            k as int
                        } else if x < i_end {
                            if kk < k {
                                kk as int
                            } else {
                                k as int
                            }
                        } else {
                            0
                        },
                    ),
            decreases k + TILE - kk,
        {
            let k_end = tile_end(kk, k);
            let mut j: usize = 0;
            while j < c
                invariant
                    r == a.spec_rows(),
                    k == a.spec_cols(),
                    k == b.spec_rows(),
                    c == b.spec_cols(),
                    a@.len() == r * k,
                    b@.len() == k * c,
                    r <= usize::MAX - TILE,
                    k <= usize::MAX - TILE,
                    c <= usize::MAX - TILE,
                    dyn_wide_matmul_fits(*a, *b),
                    out.spec_rows() == r,
                    out.spec_cols() == c,
                    out@.len() == r * c,
                    i < i_end <= r,
                    kk < k_end <= k,
                    j <= c + TILE,
                    forall|x: int, y: int|
                        #![trigger out.entry(x, y)]
                        0 <= x < r && 0 <= y < c ==> dyn_cell_holds(
                            out,
                            *a,
                            *b,
                            x,
                            y,
                            if x < i {
                                k as int
                            } else if x < i_end {
                                if y < j {
                                    k_end as int
                                } else {
                                    kk as int
                                }
                            } else {
                                0
                            },
                        ),
                decreases c + TILE - j,
            {
                let j_end = tile_end(j, c);
                let mut ii: usize = i;
                while ii < i_end
                    invariant
                        r == a.spec_rows(),
                        k == a.spec_cols(),
                        k == b.spec_rows(),
                        c == b.spec_cols(),
                        a@.len() == r * k,
                        b@.len() == k * c,
                        dyn_wide_matmul_fits(*a, *b),
                        out.spec_rows() == r,
                        out.spec_cols() == c,
                        out@.len() == r * c,
                        i <= ii <= i_end,
                        i_end <= r,
                        kk < k_end <= k,
                        j < j_end <= c,
                        forall|x: int, y: int|
                            #![trigger out.entry(x, y)]
                            0 <= x < r && 0 <= y < c ==> dyn_cell_holds(
                                out,
                                *a,
                                *b,
                                x,
                                y,
                                if x < i {
                                    k as int
                                } else if x < i_end {
                                    if y < j {
                                        k_end as int
                                    } else if y < j_end {
                                        if x < ii {
                                            k_end as int
                                        } else {
                                            kk as int
                                        }
                                    } else {
                                        kk as int
                                    }
                                } else {
                                    0
                                },
                            ),
                    decreases i_end - ii,
                {
                    let mut kkk: usize = kk;
                    while kkk < k_end
                        invariant
                            r == a.spec_rows(),
                            k == a.spec_cols(),
                            k == b.spec_rows(),
                            c == b.spec_cols(),
                            a@.len() == r * k,
                            b@.len() == k * c,
                            dyn_wide_matmul_fits(*a, *b),
                            out.spec_rows() == r,
                            out.spec_cols() == c,
                            out@.len() == r * c,
                            i <= ii < i_end,
                            i_end <= r,
                            kk <= kkk <= k_end,
                            k_end <= k,
                            j < j_end <= c,
                            forall|x: int, y: int|
                                #![trigger out.entry(x, y)]
                                0 <= x < r && 0 <= y < c ==> dyn_cell_holds(
                                    out,
                                    *a,
                                    *b,
                                    x,
                                    y,
                                    if x < i {
                                        k as int
                                    } else if x < i_end {
                                        if y < j {
                                            k_end as int
                                        } else if y < j_end {
                                            if x < ii {
                                                k_end as int
                                            } else if x == ii {
                                                kkk as int
                                            } else {
                                                kk as int
                                            }
                                        } else {
                                            kk as int
                                        }
                                    } else {
                                        0
                                    },
                                ),
                        decreases k_end - kkk,
                    {
                        proof {
                            lemma_flat_index(r as int, k as int, ii as int, kkk as int, ii as int, kkk as int);
                        }
                        let a_wide = a.get(ii, kkk).widen();
                        let mut jj: usize = j;
                        while jj < j_end
                            invariant
                                r == a.spec_rows(),
                                k == a.spec_cols(),
                                k == b.spec_rows(),
                                c == b.spec_cols(),
                                a@.len() == r * k,
                                b@.len() == k * c,
                                dyn_wide_matmul_fits(*a, *b),
                                out.spec_rows() == r,
                                out.spec_cols() == c,
                                out@.len() == r * c,
                                i <= ii < i_end,
                                i_end <= r,
                                kk <= kkk < k_end,
                                k_end <= k,
                                j <= jj <= j_end,
                                j_end <= c,
                                T::accum_value(a_wide) == a.entry(ii as int, kkk as int).value(),
                                forall|x: int, y: int|
                                    #![trigger out.entry(x, y)]
                                    0 <= x < r && 0 <= y < c ==> dyn_cell_holds(
                                        out,
                                        *a,
                                        *b,
                                        x,
                                        y,
                                        if x < i {
                                            k as int
                                        } else if x < i_end {
                                            if y < j {
                                                k_end as int
                                            } else if y < j_end {
                                                if x < ii {
                                                    k_end as int
                                                } else if x == ii {
                                                    if y < jj {
                                                        kkk + 1
                                                    } else {
                                                        kkk as int
                                                    }
                                                } else {
                                                    kk as int
                                                }
                                            } else {
                                                kk as int
                                            }
                                        } else {
                                            0
                                        },
                                    ),
                            decreases j_end - jj,
                        {
                            proof {
                                lemma_flat_index(k as int, c as int, kkk as int, jj as int, kkk as int, jj as int);
                                lemma_flat_index(r as int, c as int, ii as int, jj as int, ii as int, jj as int);
                            }
                            let b_wide = b.get(kkk, jj).widen();
                            proof {
                                assert(dyn_cell_holds(out, *a, *b, ii as int, jj as int, kkk as int));
                                assert(T::accum_min() <= a.entry(ii as int, kkk as int).value()
                                    * b.entry(kkk as int, jj as int).value() <= T::accum_max());
                                assert(T::accum_min() <= dyn_dot_prefix(
                                    *a,
                                    *b,
                                    ii as int,
                                    jj as int,
                                    kkk + 1,
                                ) <= T::accum_max());
                            }
                            let prod = T::accum_mul(a_wide, b_wide);
                            let prev = out.get(ii, jj);
                            let ghost old_out = out;
                            out.set(ii, jj, T::accum_add(prev, prod));
                            proof {
                                assert forall|x: int, y: int|
                                    0 <= x < r && 0 <= y < c && (x != ii || y != jj) implies out.entry(
                                    x,
                                    y,
                                ) == old_out.entry(x, y) by {
                                    lemma_flat_index(r as int, c as int, x, y, ii as int, jj as int);
                                }
                            }
                            jj = jj + 1;
                        }
                        kkk = kkk + 1;
                    }
                    ii = ii + 1;
                }
                j = j + TILE;
            }
            kk = kk + TILE;
        }
        i = i + TILE;
    }
    out
}

} // verus!
