//! Deterministic random stream for sampled decoding.
//!
//! SplitMix64: the same seed gives the same stream on every target, so a
//! sampled generation replays exactly from its logged seed.

use vstd::prelude::*;

verus! {

/// The SplitMix64 increment.
pub const SPLITMIX_GAMMA: u64 = 0x9E37_79B9_7F4A_7C15;

/// The state after one step (addition modulo `2^64`).
pub open spec fn splitmix_next_state(state: u64) -> u64 {
    ((state + SPLITMIX_GAMMA) % 0x1_0000_0000_0000_0000) as u64
}

/// The output mixed from the stepped state `z` (products taken modulo
/// `2^64`).
pub open spec fn splitmix_mix(z: u64) -> u64 {
    let z1 = (((z ^ (z >> 30u64)) * 0xBF58_476D_1CE4_E5B9nat) % 0x1_0000_0000_0000_0000) as u64;
    let z2 = (((z1 ^ (z1 >> 27u64)) * 0x94D0_49BB_1331_11EBnat) % 0x1_0000_0000_0000_0000) as u64;
    z2 ^ (z2 >> 31u64)
}

/// Deterministic, `no_std` PRNG (SplitMix64).
#[derive(Debug, Clone)]
pub struct DetRng {
    state: u64,
}

impl DetRng {
    /// The current state.
    pub closed spec fn spec_state(self) -> u64 {
        self.state
    }

    /// A generator whose state is `seed`.
    pub fn new(seed: u64) -> (r: Self)
        ensures
            r.spec_state() == seed,
    {
        DetRng { state: seed }
    }

    /// Next 64 bits of the SplitMix64 stream: a pure function of the state.
    pub fn next_u64(&mut self) -> (x: u64)
        ensures
            final(self).spec_state() == splitmix_next_state(old(self).spec_state()),
            x == splitmix_mix(final(self).spec_state()),
    {
        self.state = self.state.wrapping_add(SPLITMIX_GAMMA);
        let mut z = self.state;
        z = (z ^ (z >> 30)).wrapping_mul(0xBF58_476D_1CE4_E5B9);
        z = (z ^ (z >> 27)).wrapping_mul(0x94D0_49BB_1331_11EB);
        z ^ (z >> 31)
    }
}

/// Index of the first largest logit (0 when `VOCAB == 0`); the greedy
/// choice of the sampler.
pub fn argmax<const VOCAB: usize>(logits: &[i8; VOCAB]) -> (best: usize)
    ensures
        VOCAB == 0 ==> best == 0,
        VOCAB > 0 ==> {
            &&& best < VOCAB
            &&& forall|j: int| 0 <= j < VOCAB ==> #[trigger] logits[j] <= logits[best as int]
            &&& forall|j: int| 0 <= j < best ==> #[trigger] logits[j] < logits[best as int]
        },
{
    let mut best: usize = 0;
    let mut v: usize = 1;
    while v < VOCAB
        invariant
            1 <= v,
            VOCAB > 0 ==> v <= VOCAB,
            best < v,
            VOCAB == 0 ==> best == 0,
            forall|j: int| 0 <= j < v && j < VOCAB ==> #[trigger] logits[j] <= logits[best as int],
            forall|j: int| 0 <= j < best ==> #[trigger] logits[j] < logits[best as int],
        decreases VOCAB - v,
    {
        if logits[v] > logits[best] {
            best = v;
        }
        v = v + 1;
    }
    best
}

} // verus!
