//! Integer attention scores.
//!
//! `Q × Kᵀ` in `i8 × i8 → i32`, for a whole sequence or for one new token
//! against a KV cache. Softmax and value routing are floating-point and
//! run outside the library.

use vstd::prelude::*;
use vstd::arithmetic::div_mod::*;
use crate::matrix::Matrix;
use crate::quant::QTensor;
use crate::kernel::accum::WideAccum;
use crate::kernel::static_wide::{matmul_wide, dot_prefix, wide_matmul_fits};
use crate::runtime::kv_cache::QKVCache;

verus! {

/// A stateless quantized attention primitive.
pub struct QAttention<const SEQ: usize, const DIM: usize> {}

/// `sum_{d < n} q[i][d] * k[j][d]`: the score of query row `i` against key
/// row `j`, over the first `n` channels.
pub open spec fn qk_dot<const S: usize, const T: usize, const D: usize>(
    q: Matrix<i8, S, D>,
    k: Matrix<i8, T, D>,
    i: int,
    j: int,
    n: int,
) -> int
    decreases n,
{
    if n <= 0 {
        0
    } else {
        qk_dot(q, k, i, j, n - 1) + q.data[i][n - 1] * k.data[j][n - 1]
    }
}

/// The `i32` value congruent to `x` modulo `2^32` (two's-complement wrap).
pub open spec fn wrap_i32(x: int) -> int {
    let m = x % 0x1_0000_0000;
    if m > i32::MAX {
        m - 0x1_0000_0000
    } else {
        m
    }
}

/// Multiplying by a transposed key matrix computes row-by-row dot products.
proof fn lemma_dot_transposed<const S: usize, const D: usize>(
    q: Matrix<i8, S, D>,
    k: Matrix<i8, S, D>,
    kt: Matrix<i8, D, S>,
    i: int,
    j: int,
    n: int,
)
    requires
        0 <= i < S,
        0 <= j < S,
        0 <= n <= D,
        forall|r: int, c: int| 0 <= r < S && 0 <= c < D ==> #[trigger] kt.data[c][r] == k.data[r][c],
    ensures
        dot_prefix(q, kt, i, j, n) == qk_dot(q, k, i, j, n),
    decreases n,
{
    if n > 0 {
        lemma_dot_transposed(q, k, kt, i, j, n - 1);
        assert(kt.data[n - 1][j] == k.data[j][n - 1]);
    }
}

/// `wrap_i32` is the identity on `i32` values and only depends on `x`
/// modulo `2^32`.
proof fn lemma_wrap_i32_add(w: int, s: int, p: int)
    requires
        w == wrap_i32(s),
    ensures
        wrap_i32(w + p) == wrap_i32(s + p),
{
    let m = 0x1_0000_0000int;
    lemma_mod_bound(s, m);
    assert(w % m == s % m) by {
        if s % m > i32::MAX {
            lemma_mod_sub_multiples_vanish(s % m, m);
            lemma_mod_twice(s, m);
        } else {
            lemma_mod_twice(s, m);
        }
    }
    lemma_add_mod_noop(w, p, m);
    lemma_add_mod_noop(s, p, m);
}

/// `i32::wrapping_add` is addition wrapped into `i32`.
proof fn lemma_wrapping_add_is_wrap(x: i32, y: i32, r: i32)
    requires
        r as int == if x + y > i32::MAX {
            x + y - 0x1_0000_0000
        } else if x + y < i32::MIN {
            x + y + 0x1_0000_0000
        } else {
            x + y
        },
    ensures
        r as int == wrap_i32(x + y),
{
    let m = 0x1_0000_0000int;
    let s = x + y;
    if s >= 0 {
        lemma_fundamental_div_mod_converse(s, m, 0, s);
    } else {
        lemma_fundamental_div_mod_converse(s, m, -1, s + m);
    }
}

impl<const SEQ: usize, const DIM: usize> QAttention<SEQ, DIM> {
    /// Attention scores `Q × Kᵀ`: `scores[i][j] = sum_d q[i][d] * k[j][d]`,
    /// accumulated exactly in `i32` (no floating point, no normalization).
    ///
    /// Every partial score must fit in `i32` (always the case for
    /// `DIM <= 131071`).
    pub fn compute_scores(q: &QTensor<i8, SEQ, DIM>, k: &QTensor<i8, SEQ, DIM>) -> (scores: Matrix<
        i32,
        SEQ,
        SEQ,
    >)
        requires
            SEQ <= usize::MAX - 4,
            DIM <= usize::MAX - 4,
            forall|i: int, j: int, n: int|
                0 <= i < SEQ && 0 <= j < SEQ && 0 <= n <= DIM ==> i32::MIN <= #[trigger] qk_dot(
                    q.data,
                    k.data,
                    i,
                    j,
                    n,
                ) <= i32::MAX,
        ensures
            forall|i: int, j: int|
                0 <= i < SEQ && 0 <= j < SEQ ==> #[trigger] scores.data[i][j] as int == qk_dot(
                    q.data,
                    k.data,
                    i,
                    j,
                    DIM as int,
                ),
    {
        let k_t = k.data.transposed();
        proof {
            assert forall|i: int, d: int, j: int|
                0 <= i < SEQ && 0 <= d < DIM && 0 <= j < SEQ implies i32::MIN <= #[trigger] (
            q.data.data[i][d].value() * k_t.data[d][j].value()) <= i32::MAX by {
                let x = q.data.data[i][d] as int;
                let y = k_t.data[d][j] as int;
                assert(-16384 <= x * y <= 16384) by (nonlinear_arith)
                    requires
                        -128 <= x <= 127,
                        -128 <= y <= 127,
                ;
            }
            assert forall|i: int, j: int, n: int|
                0 <= i < SEQ && 0 <= j < SEQ && 0 <= n <= DIM implies i32::MIN <= #[trigger] dot_prefix(
                q.data,
                k_t,
                i,
                j,
                n,
            ) <= i32::MAX by {
                lemma_dot_transposed(q.data, k.data, k_t, i, j, n);
            }
            assert(wide_matmul_fits(q.data, k_t));
        }
        let scores = matmul_wide(&q.data, &k_t);
        proof {
            assert forall|i: int, j: int| 0 <= i < SEQ && 0 <= j < SEQ implies #[trigger] scores.data[i][j] as int
                == qk_dot(q.data, k.data, i, j, DIM as int) by {
                assert(<i8 as WideAccum>::accum_value(scores.data[i][j]) == dot_prefix(
                    q.data,
                    k_t,
                    i,
                    j,
                    DIM as int,
                ));
                lemma_dot_transposed(q.data, k.data, k_t, i, j, DIM as int);
            }
        }
        scores
    }

    /// Scores over the first `n` channels only (the first attention head
    /// when heads are `n` channels wide): `scores[i][j] = sum_{d < n}
    /// q[i][d] * k[j][d]`, accumulated exactly in `i32`.
    ///
    /// Every partial score must fit in `i32`.
    pub fn compute_scores_prefix(q: &QTensor<i8, SEQ, DIM>, k: &QTensor<i8, SEQ, DIM>, n: usize) -> (scores:
        Matrix<i32, SEQ, SEQ>)
        requires
            n <= DIM,
            forall|i: int, j: int, m: int|
                0 <= i < SEQ && 0 <= j < SEQ && 0 <= m <= n ==> i32::MIN <= #[trigger] qk_dot(
                    q.data,
                    k.data,
                    i,
                    j,
                    m,
                ) <= i32::MAX,
        ensures
            forall|i: int, j: int|
                0 <= i < SEQ && 0 <= j < SEQ ==> #[trigger] scores.data[i][j] as int == qk_dot(
                    q.data,
                    k.data,
                    i,
                    j,
                    n as int,
                ),
    {
        let mut scores = Matrix::<i32, SEQ, SEQ>::zeros();
        for i in 0..SEQ
            invariant
                n <= DIM,
                forall|a: int, b: int, m: int|
                    0 <= a < SEQ && 0 <= b < SEQ && 0 <= m <= n ==> i32::MIN <= #[trigger] qk_dot(
                        q.data,
                        k.data,
                        a,
                        b,
                        m,
                    ) <= i32::MAX,
                forall|a: int, b: int|
                    0 <= a < i && 0 <= b < SEQ ==> #[trigger] scores.data[a][b] as int == qk_dot(
                        q.data,
                        k.data,
                        a,
                        b,
                        n as int,
                    ),
        {
            for j in 0..SEQ
                invariant
                    0 <= i < SEQ,
                    n <= DIM,
                    forall|a: int, b: int, m: int|
                        0 <= a < SEQ && 0 <= b < SEQ && 0 <= m <= n ==> i32::MIN <= #[trigger] qk_dot(
                            q.data,
                            k.data,
                            a,
                            b,
                            m,
                        ) <= i32::MAX,
                    forall|a: int, b: int|
                        0 <= a < SEQ && 0 <= b < SEQ && (a < i || (a == i && b < j))
                            ==> #[trigger] scores.data[a][b] as int == qk_dot(q.data, k.data, a, b, n as int),
            {
                let mut sum: i32 = 0;
                for d in 0..n
                    invariant
                        0 <= i < SEQ,
                        0 <= j < SEQ,
                        n <= DIM,
                        forall|a: int, b: int, m: int|
                            0 <= a < SEQ && 0 <= b < SEQ && 0 <= m <= n ==> i32::MIN
                                <= #[trigger] qk_dot(q.data, k.data, a, b, m) <= i32::MAX,
                        sum as int == qk_dot(q.data, k.data, i as int, j as int, d as int),
                {
                    let q_val = q.raw(i, d) as i32;
                    let k_val = k.raw(j, d) as i32;
                    proof {
                        assert(-16384 <= q_val * k_val <= 16384) by (nonlinear_arith)
                            requires
                                -128 <= q_val <= 127,
                                -128 <= k_val <= 127,
                        ;
                        assert(i32::MIN <= qk_dot(q.data, k.data, i as int, j as int, d + 1)
                            <= i32::MAX);
                    }
                    sum = sum + q_val * k_val;
                }
                scores.data[i][j] = sum;
            }
        }
        scores
    }

    /// Scores of one new query against the first `current_len` cached keys,
    /// with wrapping `i32` arithmetic: `scores[0][t]` is the dot product of
    /// `q` and key row `t` wrapped into `i32`, for `t < current_len`; the
    /// other entries are 0.
    pub fn compute_scores_incremental(q: &QTensor<i8, 1, DIM>, cache: &QKVCache<SEQ, DIM>) -> (scores:
        Matrix<i32, 1, SEQ>)
        requires
            cache.current_len <= SEQ,
        ensures
            forall|t: int|
                0 <= t < SEQ ==> #[trigger] scores.data[0][t] as int == if t < cache.current_len {
                    wrap_i32(qk_dot(q.data, cache.keys, 0, t, DIM as int))
                } else {
                    0
                },
    {
        let mut scores = Matrix::<i32, 1, SEQ>::zeros();
        let len = cache.current_len();
        for t in 0..len
            invariant
                len == cache.current_len,
                len <= SEQ,
                forall|u: int|
                    0 <= u < SEQ ==> #[trigger] scores.data[0][u] as int == if u < t {
                        wrap_i32(qk_dot(q.data, cache.keys, 0, u, DIM as int))
                    } else {
                        0
                    },
        {
            let mut sum: i32 = 0;
            proof {
                assert(wrap_i32(0) == 0) by {
                    lemma_fundamental_div_mod_converse(0, 0x1_0000_0000, 0, 0);
                }
            }
            for d in 0..DIM
                invariant
                    0 <= t < SEQ,
                    sum as int == wrap_i32(qk_dot(q.data, cache.keys, 0, t as int, d as int)),
            {
                let q_val = q.raw(0, d) as i32;
                let k_val = cache.keys.data[t][d] as i32;
                proof {
                    assert(-16384 <= q_val * k_val <= 16384) by (nonlinear_arith)
                        requires
                            -128 <= q_val <= 127,
                            -128 <= k_val <= 127,
                    ;
                }
                let prod = q_val.wrapping_mul(k_val);
                let ghost old_sum = sum;
                sum = sum.wrapping_add(prod);
                proof {
                    assert(prod == q_val * k_val);
                    lemma_wrapping_add_is_wrap(old_sum, prod, sum);
                    lemma_wrap_i32_add(
                        old_sum as int,
                        qk_dot(q.data, cache.keys, 0, t as int, d as int),
                        prod as int,
                    );
                }
            }
            scores.data[0][t] = sum;
        }
        scores
    }
}

/// `wrap_i32` leaves `i32` values unchanged.
proof fn lemma_wrap_i32_small(x: int)
    requires
        i32::MIN <= x <= i32::MAX,
    ensures
        wrap_i32(x) == x,
{
    let m = 0x1_0000_0000int;
    if x >= 0 {
        lemma_fundamental_div_mod_converse(x, m, 0, x);
    } else {
        lemma_fundamental_div_mod_converse(x, m, -1, x + m);
    }
}

/// Scores only depend on the two rows involved.
proof fn lemma_qk_dot_same_rows<const S1: usize, const T1: usize, const S2: usize, const T2: usize, const D: usize>(
    q1: Matrix<i8, S1, D>,
    k1: Matrix<i8, T1, D>,
    i1: int,
    j1: int,
    q2: Matrix<i8, S2, D>,
    k2: Matrix<i8, T2, D>,
    i2: int,
    j2: int,
    n: int,
)
    requires
        n <= D,
        forall|d: int| 0 <= d < D ==> #[trigger] q1.data[i1][d] == q2.data[i2][d],
        forall|d: int| 0 <= d < D ==> #[trigger] k1.data[j1][d] == k2.data[j2][d],
    ensures
        qk_dot(q1, k1, i1, j1, n) == qk_dot(q2, k2, i2, j2, n),
    decreases n,
{
    if n > 0 {
        lemma_qk_dot_same_rows(q1, k1, i1, j1, q2, k2, i2, j2, n - 1);
        assert(q1.data[i1][n - 1] == q2.data[i2][n - 1]);
        assert(k1.data[j1][n - 1] == k2.data[j2][n - 1]);
    }
}

/// Incremental attention agrees with full attention: when the single query
/// `q` is row `i` of the full query matrix `q_full` and cached key row `t`
/// is row `t` of the full key matrix `k`, the score
/// [`QAttention::compute_scores_incremental`] gives position `t` equals cell
/// `(i, t)` of [`QAttention::compute_scores`] (whose scores fit in `i32`,
/// so the incremental wrapping accumulation does not wrap).
pub proof fn lemma_incremental_scores_match_full<const S: usize, const SEQ: usize, const DIM: usize>(
    q_full: Matrix<i8, S, DIM>,
    k: Matrix<i8, S, DIM>,
    q: Matrix<i8, 1, DIM>,
    keys: Matrix<i8, SEQ, DIM>,
    i: int,
    t: int,
)
    requires
        forall|d: int| 0 <= d < DIM ==> #[trigger] q.data[0][d] == q_full.data[i][d],
        forall|d: int| 0 <= d < DIM ==> #[trigger] keys.data[t][d] == k.data[t][d],
        i32::MIN <= qk_dot(q_full, k, i, t, DIM as int) <= i32::MAX,
    ensures
        wrap_i32(qk_dot(q, keys, 0, t, DIM as int)) == qk_dot(q_full, k, i, t, DIM as int),
{
    lemma_qk_dot_same_rows(q, keys, 0, t, q_full, k, i, t, DIM as int);
    lemma_wrap_i32_small(qk_dot(q_full, k, i, t, DIM as int));
}

} // verus!
