//! A simulated accumulation of proofs: each proof value is folded into a running
//! value with a fixed challenge, and the accumulation is accepted once it holds at
//! least one proof.
use vstd::prelude::*;

verus! {

/// The fixed challenge of the simulation.
pub const CHALLENGE: u128 = 31337;

/// A running accumulation of proof values.
#[derive(Clone, Debug)]
pub struct SimulatedAccumulator {
    /// How many proofs were accumulated.
    pub count: usize,
    /// The folded value.
    pub accumulated_value: u128,
}

impl SimulatedAccumulator {
    /// An empty accumulation.
    pub fn new() -> (r: Self)
        ensures
            r.count == 0,
            r.accumulated_value == 0,
    {
        SimulatedAccumulator { count: 0, accumulated_value: 0 }
    }

    /// Folds in a proof value: `acc * CHALLENGE + value`, wrapping at 128 bits.
    pub fn accumulate(&mut self, proof_value: u64)
        requires
            old(self).count < usize::MAX,
        ensures
            final(self).count == old(self).count + 1,
            final(self).accumulated_value as int == (old(self).accumulated_value as int * CHALLENGE as int
                + proof_value as int) % (u128::MAX as int + 1),
    {
        let product = self.accumulated_value.wrapping_mul(CHALLENGE);
        let sum = product.wrapping_add(proof_value as u128);
        proof {
            let m = u128::MAX as int + 1;
            vstd::arithmetic::div_mod::lemma_add_mod_noop(
                self.accumulated_value as int * CHALLENGE as int,
                proof_value as int,
                m,
            );
            vstd::arithmetic::div_mod::lemma_small_mod(proof_value as nat, m as nat);
            vstd::arithmetic::div_mod::lemma_mod_bound(self.accumulated_value as int * CHALLENGE as int, m);
        }
        self.accumulated_value = sum;
        self.count = self.count + 1;
    }

    /// Accepts the accumulation once it holds at least one proof.
    pub fn finalize(&self) -> (r: bool)
        ensures
            r == (self.count > 0),
    {
        self.count > 0
    }
}

} // verus!
