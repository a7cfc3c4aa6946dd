//! The single shared proof configuration: every table and every lookup is
//! evaluated under one configuration per proof.

use vstd::prelude::*;

verus! {

/// Security and batching parameters fixed once per proof.
#[derive(Clone, Copy, Debug, PartialEq, Eq, Structural)]
pub struct StarkConfig {
    /// Targeted conjectured security, in bits.
    pub security_bits: usize,
    /// How many independent challenge pairs each lookup receives.
    pub num_challenges: usize,
    /// Rate exponent handed to the commitment backend.
    pub rate_bits: usize,
    /// Number of query points handed to the low-degree-test backend.
    pub num_queries: usize,
}

impl StarkConfig {
    /// At least one challenge pair per lookup, or the argument is vacuous.
    pub open spec fn wf(self) -> bool {
        self.num_challenges >= 1
    }

    /// The standard recommended configuration: fast but conjectured secure.
    pub fn standard_fast_config() -> (r: StarkConfig)
        ensures
            r == (StarkConfig {
                security_bits: 100,
                num_challenges: 2,
                rate_bits: 1,
                num_queries: 84,
            }),
            r.wf(),
    {
        StarkConfig { security_bits: 100, num_challenges: 2, rate_bits: 1, num_queries: 84 }
    }
}

} // verus!
