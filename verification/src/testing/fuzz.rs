//! A linear congruential generator for deterministic pseudo-random fuzzing.

use vstd::prelude::*;
use crate::matrix::Matrix;

verus! {

/// The LCG state after one step: `state × 1664525 + 1013904223 (mod 2^32)`.
pub open spec fn lcg_step(state: u32) -> u32 {
    ((state * 1664525nat + 1013904223nat) % 0x1_0000_0000) as u32
}

/// The state after `n` steps.
pub open spec fn lcg_iter(state: u32, n: nat) -> u32
    decreases n,
{
    if n == 0 {
        state
    } else {
        lcg_step(lcg_iter(state, (n - 1) as nat))
    }
}

/// A linear congruential generator (Numerical Recipes constants).
pub struct LcgRng {
    state: u32,
}

impl LcgRng {
    /// The current state.
    pub closed spec fn spec_state(self) -> u32 {
        self.state
    }

    /// A generator whose state is `seed`.
    pub fn new(seed: u32) -> (r: Self)
        ensures
            r.spec_state() == seed,
    {
        LcgRng { state: seed }
    }

    /// Step, and return the new state.
    pub fn next_u32(&mut self) -> (x: u32)
        ensures
            x == lcg_step(old(self).spec_state()),
            final(self).spec_state() == x,
    {
        self.state = self.state.wrapping_mul(1664525).wrapping_add(1013904223);
        proof {
            assert(((((old(self).state as nat * 1664525nat) % 0x1_0000_0000) + 1013904223nat)
                % 0x1_0000_0000) == ((old(self).state as nat * 1664525nat + 1013904223nat)
                % 0x1_0000_0000)) by {
                vstd::arithmetic::div_mod::lemma_add_mod_noop(
                    (old(self).state as nat * 1664525nat) as int,
                    1013904223int,
                    0x1_0000_0000int,
                );
            }
        }
        self.state
    }

    /// Step, and return the low byte of the new state as `i8`.
    pub fn next_i8(&mut self) -> (x: i8)
        ensures
            x == lcg_step(old(self).spec_state()) as i8,
            final(self).spec_state() == lcg_step(old(self).spec_state()),
    {
        self.next_u32() as i8
    }

    /// Step, and return the low byte of the new state.
    pub fn next_u8(&mut self) -> (x: u8)
        ensures
            x == lcg_step(old(self).spec_state()) as u8,
            final(self).spec_state() == lcg_step(old(self).spec_state()),
    {
        self.next_u32() as u8
    }

    /// Fill an `R × C` matrix row-major with successive [`LcgRng::next_i8`]
    /// values: element `(r, c)` comes from step `r * C + c + 1`.
    pub fn fill_matrix_i8<const R: usize, const C: usize>(&mut self) -> (mat: Matrix<i8, R, C>)
        ensures
            forall|r: int, c: int|
                0 <= r < R && 0 <= c < C ==> #[trigger] mat.data[r][c] == lcg_iter(
                    old(self).spec_state(),
                    (r * C + c + 1) as nat,
                ) as i8,
            final(self).spec_state() == lcg_iter(old(self).spec_state(), (R * C) as nat),
    {
        let mut mat = Matrix::<i8, R, C>::zeros();
        let ghost s0 = self.spec_state();
        proof {
            assert(0 * C == 0);
        }
        for r in 0..R
            invariant
                s0 == old(self).spec_state(),
                self.spec_state() == lcg_iter(s0, (r * C) as nat),
                forall|x: int, y: int|
                    0 <= x < r && 0 <= y < C ==> #[trigger] mat.data[x][y] == lcg_iter(
                        s0,
                        (x * C + y + 1) as nat,
                    ) as i8,
        {
            proof {
                assert((r + 1) * C == r * C + C) by (nonlinear_arith);
                assert(r * C >= 0) by (nonlinear_arith);
            }
            for c in 0..C
                invariant
                    0 <= r < R,
                    r * C >= 0,
                    (r + 1) * C == r * C + C,
                    s0 == old(self).spec_state(),
                    self.spec_state() == lcg_iter(s0, (r * C + c) as nat),
                    forall|x: int, y: int|
                        0 <= x < R && 0 <= y < C && (x < r || (x == r && y < c))
                            ==> #[trigger] mat.data[x][y] == lcg_iter(s0, (x * C + y + 1) as nat) as i8,
            {
                mat.data[r][c] = self.next_i8();
            }
        }
        mat
    }
}

} // verus!
