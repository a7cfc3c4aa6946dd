//! A multi-table STARK composition layer: per-table trace constraints, a
//! cross-table-lookup (CTL) argument tying independently committed tables
//! together, and the prover/verifier orchestration around a single
//! Fiat-Shamir transcript.

pub mod all_stark;
pub mod builtins;
pub mod column;
pub mod config;
pub mod cpu;
pub mod field;
pub mod cross_table_lookup;
pub mod memory;
pub mod multiset;
pub mod permutation;
pub mod proofs;
pub mod prover;
pub mod table;
pub mod stark_verifier;
pub mod transcript;
pub mod vm;

use vstd::prelude::*;

verus! {

} // verus!
